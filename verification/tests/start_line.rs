#![allow(non_snake_case)]

use vertex::error::HTTPError;
use vertex::message::HTTPEncodable;
use vertex::method::HTTPMethod;
use vertex::request_uri::HTTPRequestURI;
use vertex::start_line::{RequestLine, StatusLine};
use vertex::status_code::HTTPStatusCode;
use vertex::version::HTTPVersion;

fn requestLine(method: HTTPMethod, uri: &str) -> RequestLine {
    RequestLine::builder()
        .method(method)
        .requestURI(HTTPRequestURI::from(uri))
        .build()
}

#[test]
fn request_line_builder_defaults() {
    let line = RequestLine::builder().method(HTTPMethod::GET).build();
    assert_eq!(line.method, HTTPMethod::GET);
    assert_eq!(line.requestURI, HTTPRequestURI::AbsolutePath(String::from("/")));
    assert_eq!(line.protocolVersion, HTTPVersion::One);
}

#[test]
fn request_line_builder_takes_fields_in_any_order() {
    let first = RequestLine::builder()
        .requestURI(HTTPRequestURI::Asterisk)
        .protocolVersion(HTTPVersion::One)
        .method(HTTPMethod::OPTIONS)
        .build();
    let second = RequestLine::builder()
        .method(HTTPMethod::OPTIONS)
        .protocolVersion(HTTPVersion::One)
        .requestURI(HTTPRequestURI::Asterisk)
        .build();
    assert_eq!(first, second);
    assert_eq!(first.requestURI, HTTPRequestURI::Asterisk);
}

#[test]
fn request_line_encodes_three_tokens() {
    let mut encoding = String::new();
    requestLine(HTTPMethod::GET, "/").httpEncode(&mut encoding).unwrap();
    assert_eq!(encoding, "GET / HTTP/1.1");

    let mut encoding = String::new();
    requestLine(HTTPMethod::OPTIONS, "*").httpEncode(&mut encoding).unwrap();
    assert_eq!(encoding, "OPTIONS * HTTP/1.1");

    let mut encoding = String::new();
    requestLine(HTTPMethod::POST, "http://a/b").httpEncode(&mut encoding).unwrap();
    assert_eq!(encoding, "POST http://a/b HTTP/1.1");
}

#[test]
fn request_line_encode_appends() {
    let mut encoding = String::from("> ");
    requestLine(HTTPMethod::HEAD, "/x").httpEncode(&mut encoding).unwrap();
    assert_eq!(encoding, "> HEAD /x HTTP/1.1");
}

#[test]
fn request_line_decodes() {
    assert_eq!(RequestLine::httpDecode("GET / HTTP/1.1"), Ok(requestLine(HTTPMethod::GET, "/")));
    assert_eq!(
        RequestLine::httpDecode("OPTIONS * HTTP/1.1"),
        Ok(requestLine(HTTPMethod::OPTIONS, "*"))
    );
    assert_eq!(
        RequestLine::httpDecode("PUT https://a/b?c=d HTTP/1.1"),
        Ok(requestLine(HTTPMethod::PUT, "https://a/b?c=d"))
    );
    assert_eq!(
        RequestLine::httpDecode("UNKNOWN /x HTTP/1.1"),
        Ok(requestLine(HTTPMethod::UNKNOWN, "/x"))
    );
}

#[test]
fn request_line_round_trip() {
    for method in [HTTPMethod::GET, HTTPMethod::DELETE, HTTPMethod::CONNECT, HTTPMethod::UNKNOWN] {
        for uri in ["*", "/", "", "/files/a.txt", "http://x/y", "https://x", "/caf\u{e9}"] {
            let line = requestLine(method, uri);
            let mut encoding = String::new();
            line.httpEncode(&mut encoding).unwrap();
            assert_eq!(RequestLine::httpDecode(&encoding), Ok(line));
        }
    }
}

#[test]
fn unknown_method_is_refused() {
    assert_eq!(RequestLine::httpDecode("PATCH / HTTP/1.1"), Err(HTTPError::UnknownMethod));
    assert_eq!(RequestLine::httpDecode("get / HTTP/1.1"), Err(HTTPError::UnknownMethod));
    assert_eq!(RequestLine::httpDecode(""), Err(HTTPError::UnknownMethod));
    assert_eq!(RequestLine::httpDecode(" GET / HTTP/1.1"), Err(HTTPError::UnknownMethod));
    assert_eq!(RequestLine::httpDecode("PATCH"), Err(HTTPError::UnknownMethod));
}

#[test]
fn missing_request_uri_is_refused() {
    assert_eq!(RequestLine::httpDecode("GET"), Err(HTTPError::RequestURINotFound));
}

#[test]
fn missing_protocol_version_is_refused() {
    assert_eq!(RequestLine::httpDecode("GET /"), Err(HTTPError::ProtocolVersionNotFound));
}

#[test]
fn unsupported_protocol_version_is_refused() {
    assert_eq!(RequestLine::httpDecode("GET / HTTP/1.0"), Err(HTTPError::UnsupportedProtocolVersion));
    assert_eq!(RequestLine::httpDecode("GET / HTTP/2"), Err(HTTPError::UnsupportedProtocolVersion));
    assert_eq!(RequestLine::httpDecode("GET / "), Err(HTTPError::UnsupportedProtocolVersion));
}

#[test]
fn two_spaces_make_an_empty_token() {
    assert_eq!(RequestLine::httpDecode("GET  / HTTP/1.1"), Err(HTTPError::UnsupportedProtocolVersion));
    assert_eq!(RequestLine::httpDecode("GET  HTTP/1.1"), Ok(requestLine(HTTPMethod::GET, "")));
}

#[test]
fn tokens_after_the_third_count_for_nothing() {
    assert_eq!(
        RequestLine::httpDecode("GET / HTTP/1.1 extra"),
        Ok(requestLine(HTTPMethod::GET, "/"))
    );
    assert_eq!(RequestLine::httpDecode("GET / HTTP/1.1 "), Ok(requestLine(HTTPMethod::GET, "/")));
}

#[test]
fn status_line_builder_defaults() {
    let line = StatusLine::builder().build();
    assert_eq!(line.protocolVersion, HTTPVersion::One);
    assert_eq!(line.statusCode, HTTPStatusCode::OK);
    assert_eq!(line, StatusLine::default());
}

#[test]
fn status_line_encodes_code_and_reason() {
    let mut encoding = String::new();
    StatusLine::builder().build().httpEncode(&mut encoding).unwrap();
    assert_eq!(encoding, "HTTP/1.1 200 OK");

    let mut encoding = String::new();
    StatusLine::builder()
        .statusCode(HTTPStatusCode::NotFound)
        .build()
        .httpEncode(&mut encoding)
        .unwrap();
    assert_eq!(encoding, "HTTP/1.1 404 Not Found");

    let mut encoding = String::new();
    StatusLine::builder()
        .protocolVersion(HTTPVersion::One)
        .statusCode(HTTPStatusCode::HTTPVersionNotSupported)
        .build()
        .httpEncode(&mut encoding)
        .unwrap();
    assert_eq!(encoding, "HTTP/1.1 505 HTTP Version not supported");
}

#[test]
fn status_line_is_never_decoded() {
    assert_eq!(StatusLine::httpDecode("HTTP/1.1 200 OK"), Err(HTTPError::StatusLineDecode));
    assert_eq!(StatusLine::httpDecode(""), Err(HTTPError::StatusLineDecode));
}
