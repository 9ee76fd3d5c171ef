//! The routes of a small file server, and the responses that it gives.
use crate::decimal::decimal;
use crate::headers::{put, Entry};
use crate::message::{HTTPMessage, HTTPMessageView, HTTPRequest, HTTPResponse};
use crate::method::HTTPMethod;
use crate::start_line::StatusLine;
use crate::status_code::HTTPStatusCode;
use crate::text::{equal, starts_with, stripPrefix, strip_prefix};
use crate::version::HTTPVersion;
use vstd::prelude::*;
use vstd::utf8::encode_utf8;

verus! {

/// Where a request goes, by its path.
#[derive(Debug, PartialEq, Eq)]
pub enum Route {
    /// `/echo/` and a message: the message is sent back.
    Echo(String),
    /// `/user-agent`: the client's `User-Agent` header is sent back.
    UserAgent,
    /// `/files/` and a file name: the file is read or written.
    Files(String),
    /// `/`: the server says that it is there.
    Root,
    /// Any other path: there is nothing at it.
    NotFound,
}

/// What a route is in contracts.
pub enum RouteView {
    Echo(Seq<char>),
    UserAgent,
    Files(Seq<char>),
    Root,
    NotFound,
}

impl View for Route {
    type V = RouteView;

    open spec fn view(&self) -> RouteView {
        match self {
            Self::Echo(message) => RouteView::Echo(message@),
            Self::UserAgent => RouteView::UserAgent,
            Self::Files(name) => RouteView::Files(name@),
            Self::Root => RouteView::Root,
            Self::NotFound => RouteView::NotFound,
        }
    }
}

/// The route of a path. The routes are tried in this order: echo, user
/// agent, files, root.
pub open spec fn route_of(path: Seq<char>) -> RouteView {
    if starts_with(path, "/echo/"@) {
        RouteView::Echo(strip_prefix(path, "/echo/"@)->0)
    } else if path == "/user-agent"@ {
        RouteView::UserAgent
    } else if starts_with(path, "/files/"@) {
        RouteView::Files(strip_prefix(path, "/files/"@)->0)
    } else if path == "/"@ {
        RouteView::Root
    } else {
        RouteView::NotFound
    }
}

/// What is done with a file, by the method of the request.
#[derive(Clone, Copy, Debug, PartialEq, Eq, Structural)]
pub enum FileAction {
    /// `GET`: the file is read and sent.
    Read,
    /// `POST`: the body of the request is written to the file.
    Write,
    /// Any other method is not allowed.
    Refuse,
}

/// A response with the status `status`, without headers or body.
pub open spec fn status_response(status: HTTPStatusCode) -> HTTPMessageView<StatusLine> {
    HTTPMessageView {
        startLine: StatusLine { protocolVersion: HTTPVersion::One, statusCode: status },
        headers: Seq::<Entry>::empty(),
        body: None,
    }
}

/// A response `200 OK` with the body `body`, its length, and the content
/// type `contentType`.
pub open spec fn body_response(body: Seq<char>, contentType: Seq<char>) -> HTTPMessageView<
    StatusLine,
> {
    HTTPMessageView {
        startLine: StatusLine { protocolVersion: HTTPVersion::One, statusCode: HTTPStatusCode::OK },
        headers: put(
            put(Seq::<Entry>::empty(), "Content-Type"@, contentType),
            "Content-Length"@,
            decimal(encode_utf8(body).len()),
        ),
        body: Some(body),
    }
}

/// Finds the route of a request by the path of its request line.
pub fn route(request: &HTTPRequest) -> (found: Route)
    ensures
        found@ == route_of(request@.startLine.requestURI.text()),
{
    let path = request.startLine.requestURI.to_str();
    if let Some(echoMessage) = stripPrefix(path, "/echo/") {
        return Route::Echo(echoMessage.to_owned());
    }
    if equal(path, "/user-agent") {
        return Route::UserAgent;
    }
    if let Some(fileName) = stripPrefix(path, "/files/") {
        return Route::Files(fileName.to_owned());
    }
    if equal(path, "/") {
        Route::Root
    } else {
        Route::NotFound
    }
}

/// Says what a request for a file asks for.
pub fn fileAction(method: HTTPMethod) -> (action: FileAction)
    ensures
        action == match method {
            HTTPMethod::GET => FileAction::Read,
            HTTPMethod::POST => FileAction::Write,
            _ => FileAction::Refuse,
        },
{
    match method {
        HTTPMethod::GET => FileAction::Read,
        HTTPMethod::POST => FileAction::Write,
        _ => FileAction::Refuse,
    }
}

/// A response with the status `status`, without headers or body.
pub fn statusResponse(status: HTTPStatusCode) -> (response: HTTPResponse)
    ensures
        response@ == status_response(status),
{
    HTTPMessage::builder().startLine(StatusLine::builder().statusCode(status).build()).build()
}

/// The response that sends `text` back as plain text.
pub fn textResponse(text: &str) -> (response: HTTPResponse)
    ensures
        response@ == body_response(text@, "text/plain"@),
{
    let mut httpResponse = statusResponse(HTTPStatusCode::OK);
    httpResponse.setBody(text);
    httpResponse
}

/// The response that sends the content of a file.
pub fn fileResponse(fileContent: &str) -> (response: HTTPResponse)
    ensures
        response@ == body_response(fileContent@, "application/octet-stream"@),
{
    let mut httpResponse = statusResponse(HTTPStatusCode::OK);
    httpResponse.setBody(fileContent);
    let ghost plain = httpResponse@.headers;
    httpResponse.headers.insert("Content-Type".to_owned(), "application/octet-stream".to_owned());
    proof {
        reveal_strlit("Content-Type");
        reveal_strlit("Content-Length");
        assert("Content-Type"@.len() != "Content-Length"@.len());
        let none = Seq::<Entry>::empty();
        let length = decimal(encode_utf8(fileContent@).len());
        let typed = put(none, "Content-Type"@, "text/plain"@);
        assert(typed =~= seq![("Content-Type"@, "text/plain"@)]);
        assert(typed[0].0 == "Content-Type"@);
        assert(plain =~= seq![("Content-Type"@, "text/plain"@), ("Content-Length"@, length)]);
        assert(plain[0].0 == "Content-Type"@);
        let other = put(none, "Content-Type"@, "application/octet-stream"@);
        assert(other =~= seq![("Content-Type"@, "application/octet-stream"@)]);
        assert(other[0].0 == "Content-Type"@);
        assert(httpResponse@.headers =~= put(other, "Content-Length"@, length));
    }
    httpResponse
}

} // verus!
