#![allow(non_snake_case)]

use vertex::error::{HTTPError, HTTPErrorKind};
use vertex::method::HTTPMethod;
use vertex::request_uri::{isAbsoluteURI, HTTPRequestURI};
use vertex::status_code::HTTPStatusCode;
use vertex::version::HTTPVersion;

#[test]
fn method_tokens() {
    assert_eq!(HTTPMethod::OPTIONS.as_ref(), "OPTIONS");
    assert_eq!(HTTPMethod::GET.as_ref(), "GET");
    assert_eq!(HTTPMethod::HEAD.as_ref(), "HEAD");
    assert_eq!(HTTPMethod::POST.as_ref(), "POST");
    assert_eq!(HTTPMethod::PUT.as_ref(), "PUT");
    assert_eq!(HTTPMethod::DELETE.as_ref(), "DELETE");
    assert_eq!(HTTPMethod::TRACE.as_ref(), "TRACE");
    assert_eq!(HTTPMethod::CONNECT.as_ref(), "CONNECT");
    assert_eq!(HTTPMethod::UNKNOWN.as_ref(), "UNKNOWN");
}

#[test]
fn method_parse_is_exact() {
    assert_eq!(HTTPMethod::parse("GET"), Some(HTTPMethod::GET));
    assert_eq!(HTTPMethod::parse("DELETE"), Some(HTTPMethod::DELETE));
    assert_eq!(HTTPMethod::parse("UNKNOWN"), Some(HTTPMethod::UNKNOWN));
    assert_eq!(HTTPMethod::parse("get"), None);
    assert_eq!(HTTPMethod::parse("PATCH"), None);
    assert_eq!(HTTPMethod::parse(""), None);
    assert_eq!(HTTPMethod::parse("GET "), None);
}

#[test]
fn every_method_is_named_by_its_token() {
    for method in [
        HTTPMethod::OPTIONS,
        HTTPMethod::GET,
        HTTPMethod::HEAD,
        HTTPMethod::POST,
        HTTPMethod::PUT,
        HTTPMethod::DELETE,
        HTTPMethod::TRACE,
        HTTPMethod::CONNECT,
        HTTPMethod::UNKNOWN,
    ] {
        assert_eq!(HTTPMethod::parse(method.as_ref()), Some(method));
    }
}

#[test]
fn version_token() {
    assert_eq!(HTTPVersion::One.as_ref(), "HTTP/1.1");
    assert_eq!(HTTPVersion::parse("HTTP/1.1"), Some(HTTPVersion::One));
    assert_eq!(HTTPVersion::parse("HTTP/1.0"), None);
    assert_eq!(HTTPVersion::parse("http/1.1"), None);
    assert_eq!(HTTPVersion::default(), HTTPVersion::One);
}

#[test]
fn status_codes_and_reason_phrases() {
    let table = [
        (HTTPStatusCode::Continue, 100, "Continue"),
        (HTTPStatusCode::SwitchingProtocols, 101, "Switching Protocols"),
        (HTTPStatusCode::OK, 200, "OK"),
        (HTTPStatusCode::Created, 201, "Created"),
        (HTTPStatusCode::Accepted, 202, "Accepted"),
        (HTTPStatusCode::NonAuthoritativeInformation, 203, "Non-Authoritative Information"),
        (HTTPStatusCode::NoContent, 204, "No Content"),
        (HTTPStatusCode::ResetContent, 205, "Reset Content"),
        (HTTPStatusCode::PartialContent, 206, "Partial Content"),
        (HTTPStatusCode::MultipleChoices, 300, "Multiple Choices"),
        (HTTPStatusCode::MovedPermanently, 301, "Moved Permanently"),
        (HTTPStatusCode::Found, 302, "Found"),
        (HTTPStatusCode::SeeOther, 303, "See Other"),
        (HTTPStatusCode::NotModified, 304, "Not Modified"),
        (HTTPStatusCode::UseProxy, 305, "Use Proxy"),
        (HTTPStatusCode::TemporaryRedirect, 307, "Temporary Redirect"),
        (HTTPStatusCode::BadRequest, 400, "Bad Request"),
        (HTTPStatusCode::Unauthorized, 401, "Unauthorized"),
        (HTTPStatusCode::PaymentRequired, 402, "Payment Required"),
        (HTTPStatusCode::Forbidden, 403, "Forbidden"),
        (HTTPStatusCode::NotFound, 404, "Not Found"),
        (HTTPStatusCode::MethodNotAllowed, 405, "Method Not Allowed"),
        (HTTPStatusCode::NotAcceptable, 406, "Not Acceptable"),
        (HTTPStatusCode::ProxyAuthenticationRequired, 407, "Proxy Authentication Required"),
        (HTTPStatusCode::RequestTimeout, 408, "Request Time-out"),
        (HTTPStatusCode::Conflict, 409, "Conflict"),
        (HTTPStatusCode::Gone, 410, "Gone"),
        (HTTPStatusCode::LengthRequired, 411, "Length Required"),
        (HTTPStatusCode::PreconditionFailed, 412, "Precondition Failed"),
        (HTTPStatusCode::RequestEntityTooLarge, 413, "Request Entity Too Large"),
        (HTTPStatusCode::RequestURITooLong, 414, "Request-URI Too Large"),
        (HTTPStatusCode::UnsupportedMediaType, 415, "Unsupported Media Type"),
        (HTTPStatusCode::RequestedRangeNotSatisfiable, 416, "Requested range Not Satisfiable"),
        (HTTPStatusCode::ExpectationFailed, 417, "Expectation Failed"),
        (HTTPStatusCode::InternalServerError, 500, "Internal Server Error"),
        (HTTPStatusCode::NotImplemented, 501, "Not Implemented"),
        (HTTPStatusCode::BadGateway, 502, "Bad Gateway"),
        (HTTPStatusCode::ServiceUnavailable, 503, "Service Unavailable"),
        (HTTPStatusCode::GatewayTimeout, 504, "Gateway Time-out"),
        (HTTPStatusCode::HTTPVersionNotSupported, 505, "HTTP Version not supported"),
    ];
    for (status, code, phrase) in table {
        assert_eq!(status.code(), code);
        assert_eq!(status.getReasonPhrase(), phrase);
    }
}

#[test]
fn default_status_is_ok() {
    assert_eq!(HTTPStatusCode::default(), HTTPStatusCode::OK);
}

#[test]
fn request_uri_shapes() {
    assert_eq!(HTTPRequestURI::from("*"), HTTPRequestURI::Asterisk);
    assert_eq!(
        HTTPRequestURI::from("http://www.w3.org/pub/WWW/TheProject.html"),
        HTTPRequestURI::AbsoluteURI(String::from("http://www.w3.org/pub/WWW/TheProject.html"))
    );
    assert_eq!(
        HTTPRequestURI::from("https://example.org"),
        HTTPRequestURI::AbsoluteURI(String::from("https://example.org"))
    );
    assert_eq!(
        HTTPRequestURI::from("/pub/WWW/TheProject.html"),
        HTTPRequestURI::AbsolutePath(String::from("/pub/WWW/TheProject.html"))
    );
    assert_eq!(HTTPRequestURI::from(""), HTTPRequestURI::AbsolutePath(String::new()));
    assert_eq!(HTTPRequestURI::from("**"), HTTPRequestURI::AbsolutePath(String::from("**")));
    assert_eq!(
        HTTPRequestURI::from("HTTP://x"),
        HTTPRequestURI::AbsolutePath(String::from("HTTP://x"))
    );
    assert_eq!(HTTPRequestURI::from("ftp://x"), HTTPRequestURI::AbsolutePath(String::from("ftp://x")));
}

#[test]
fn request_uri_text_is_the_token_it_was_read_from() {
    for token in ["*", "/", "", "/echo/abc", "http://a/b", "https://a", "http:/", "/é"] {
        assert_eq!(HTTPRequestURI::from(token).to_str(), token);
    }
}

#[test]
fn default_request_uri_is_the_root() {
    assert_eq!(HTTPRequestURI::default(), HTTPRequestURI::AbsolutePath(String::from("/")));
}

#[test]
fn absolute_uri_needs_a_scheme() {
    assert!(isAbsoluteURI("http://"));
    assert!(isAbsoluteURI("https://x"));
    assert!(!isAbsoluteURI("http:/x"));
    assert!(!isAbsoluteURI("/http://x"));
    assert!(!isAbsoluteURI(""));
}

#[test]
fn error_messages() {
    assert_eq!(HTTPError::UnknownMethod.message(), "Unknown method");
    assert_eq!(HTTPError::RequestURINotFound.message(), "request URI not found");
    assert_eq!(HTTPError::ProtocolVersionNotFound.message(), "protocol version not found");
    assert_eq!(
        HTTPError::UnsupportedProtocolVersion.message(),
        "Unknown / un-supported protocol version"
    );
    assert_eq!(HTTPError::HeaderValueNotFound.message(), "header value not found");
    assert_eq!(
        HTTPError::HeaderSectionEndedUnexpectedly.message(),
        "header section ended unexpectedly"
    );
    assert_eq!(HTTPError::StatusLineDecode.message(), "a status line cannot be decoded");
    assert_eq!(HTTPError::InvalidContentLength.message(), "Content-Length is not a length");
}

#[test]
fn error_kinds() {
    for error in [
        HTTPError::UnknownMethod,
        HTTPError::RequestURINotFound,
        HTTPError::ProtocolVersionNotFound,
        HTTPError::UnsupportedProtocolVersion,
        HTTPError::HeaderValueNotFound,
        HTTPError::HeaderSectionEndedUnexpectedly,
    ] {
        assert_eq!(error.kind(), HTTPErrorKind::Framing);
    }
    assert_eq!(HTTPError::StatusLineDecode.kind(), HTTPErrorKind::UnsupportedOperation);
    assert_eq!(HTTPError::InvalidContentLength.kind(), HTTPErrorKind::Connection);
}
