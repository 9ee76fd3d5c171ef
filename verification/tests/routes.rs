#![allow(non_snake_case)]

use vertex::message::{HTTPEncodable, HTTPMessage, HTTPRequest, HTTPResponse};
use vertex::method::HTTPMethod;
use vertex::request_uri::HTTPRequestURI;
use vertex::routes::{fileAction, fileResponse, route, statusResponse, textResponse, FileAction, Route};
use vertex::start_line::RequestLine;
use vertex::status_code::HTTPStatusCode;
use vertex::text::stripPrefix;

fn requestAt(path: &str) -> HTTPRequest {
    HTTPMessage::builder()
        .startLine(
            RequestLine::builder()
                .method(HTTPMethod::GET)
                .requestURI(HTTPRequestURI::from(path))
                .build(),
        )
        .build()
}

fn wire(response: &HTTPResponse) -> String {
    let mut encoding = String::new();
    response.httpEncode(&mut encoding).unwrap();
    encoding
}

#[test]
fn strip_prefix_takes_the_prefix_off() {
    assert_eq!(stripPrefix("/echo/abc", "/echo/"), Some("abc"));
    assert_eq!(stripPrefix("/echo/", "/echo/"), Some(""));
    assert_eq!(stripPrefix("/echo", "/echo/"), None);
    assert_eq!(stripPrefix("x/echo/abc", "/echo/"), None);
    assert_eq!(stripPrefix("abc", ""), Some("abc"));
    assert_eq!(stripPrefix("", ""), Some(""));
    assert_eq!(stripPrefix("", "a"), None);
    assert_eq!(stripPrefix("日本語", "日"), Some("本語"));
}

#[test]
fn paths_and_their_routes() {
    assert_eq!(route(&requestAt("/echo/abc")), Route::Echo(String::from("abc")));
    assert_eq!(route(&requestAt("/echo/")), Route::Echo(String::new()));
    assert_eq!(route(&requestAt("/echo/a/b c")), Route::Echo(String::from("a/b c")));
    assert_eq!(route(&requestAt("/user-agent")), Route::UserAgent);
    assert_eq!(route(&requestAt("/files/a.txt")), Route::Files(String::from("a.txt")));
    assert_eq!(route(&requestAt("/files/")), Route::Files(String::new()));
    assert_eq!(route(&requestAt("/")), Route::Root);
}

#[test]
fn other_paths_lead_nowhere() {
    for path in ["", "/echo", "/user-agent/", "/User-Agent", "/files", "//", "/index.html", "*", "http://x/echo/a"] {
        assert_eq!(route(&requestAt(path)), Route::NotFound);
    }
}

#[test]
fn file_actions_by_method() {
    assert_eq!(fileAction(HTTPMethod::GET), FileAction::Read);
    assert_eq!(fileAction(HTTPMethod::POST), FileAction::Write);
    for method in [
        HTTPMethod::OPTIONS,
        HTTPMethod::HEAD,
        HTTPMethod::PUT,
        HTTPMethod::DELETE,
        HTTPMethod::TRACE,
        HTTPMethod::CONNECT,
        HTTPMethod::UNKNOWN,
    ] {
        assert_eq!(fileAction(method), FileAction::Refuse);
    }
}

#[test]
fn status_response_has_no_headers_and_no_body() {
    assert_eq!(wire(&statusResponse(HTTPStatusCode::OK)), "HTTP/1.1 200 OK\r\n\r\n");
    assert_eq!(wire(&statusResponse(HTTPStatusCode::Created)), "HTTP/1.1 201 Created\r\n\r\n");
    assert_eq!(
        wire(&statusResponse(HTTPStatusCode::MethodNotAllowed)),
        "HTTP/1.1 405 Method Not Allowed\r\n\r\n"
    );
}

#[test]
fn text_response_is_plain_text() {
    assert_eq!(
        wire(&textResponse("curl/8.0")),
        "HTTP/1.1 200 OK\r\nContent-Type: text/plain\r\nContent-Length: 8\r\n\r\ncurl/8.0"
    );
}

#[test]
fn file_response_is_an_octet_stream() {
    assert_eq!(
        wire(&fileResponse("Hello, World!")),
        "HTTP/1.1 200 OK\r\nContent-Type: application/octet-stream\r\nContent-Length: 13\r\n\r\nHello, World!"
    );
}
