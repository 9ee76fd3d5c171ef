//! The steps of one connection, from its first line to its complete request.
use crate::decimal::{parseDecimal, parse_decimal};
use crate::error::HTTPError;
use crate::headers::lookup;
use crate::message::{HTTPEncodable, HTTPMessage, HTTPMessageView, HTTPRequest};
use crate::start_line::{RequestLine, RequestLineView};
use crate::text::{endsWith, ends_with};
use vstd::prelude::*;
use vstd::string::StringExecFns;

verus! {

/// Where a connection stands. A connection carries one request: its header
/// section is read line by line, then its body, then it is answered. Each
/// state says what the connection waits for.
#[derive(Debug)]
pub enum Connection {
    /// Waits for one more line of the header section; `received` is the text
    /// read so far.
    ReadingHeaders { received: String },
    /// The header section is read and announces a body: waits for exactly
    /// `length` bytes.
    ReadingBody { request: HTTPRequest, length: usize },
    /// The request is complete: waits to be answered.
    Dispatching { request: HTTPRequest },
    /// The request could not be read. Nothing is sent.
    Dropped { error: HTTPError },
}

/// What a connection's state is in contracts.
pub enum ConnectionView {
    ReadingHeaders { received: Seq<char> },
    ReadingBody { request: HTTPMessageView<RequestLineView>, length: nat },
    Dispatching { request: HTTPMessageView<RequestLineView> },
    Dropped { error: HTTPError },
}

impl View for Connection {
    type V = ConnectionView;

    open spec fn view(&self) -> ConnectionView {
        match self {
            Self::ReadingHeaders { received } => ConnectionView::ReadingHeaders {
                received: received@,
            },
            Self::ReadingBody { request, length } => ConnectionView::ReadingBody {
                request: request@,
                length: *length as nat,
            },
            Self::Dispatching { request } => ConnectionView::Dispatching { request: request@ },
            Self::Dropped { error } => ConnectionView::Dropped { error: *error },
        }
    }
}

/// The state that follows a complete header section `text`. The text must
/// decode to a request. A request without `Content-Length` has no body. One
/// with it has a body of that many bytes; the value must denote a
/// non-negative integer that fits the machine.
pub open spec fn after_headers(text: Seq<char>) -> ConnectionView {
    match HTTPMessage::<RequestLine>::parse(text) {
        Err(error) => ConnectionView::Dropped { error },
        Ok(request) => match lookup(request.headers, "Content-Length"@) {
            None => ConnectionView::Dispatching { request },
            Some(length) => match parse_decimal(length) {
                Some(length) => if length <= usize::MAX {
                    ConnectionView::ReadingBody { request, length }
                } else {
                    ConnectionView::Dropped { error: HTTPError::InvalidContentLength }
                },
                None => ConnectionView::Dropped { error: HTTPError::InvalidContentLength },
            },
        },
    }
}

impl ConnectionView {
    /// The state after one more line was read. The header section is
    /// complete when the text read so far ends in a blank line, that is in
    /// two line breaks. A line counts only while the header section is read.
    pub open spec fn after_line(self, line: Seq<char>) -> ConnectionView {
        match self {
            Self::ReadingHeaders { received } => if ends_with(received + line, "\r\n\r\n"@) {
                after_headers(received + line)
            } else {
                Self::ReadingHeaders { received: received + line }
            },
            _ => self,
        }
    }

    /// The state after the body was read. A body counts only while one is
    /// waited for.
    pub open spec fn after_body(self, body: Seq<char>) -> ConnectionView {
        match self {
            Self::ReadingBody { request, length } => Self::Dispatching {
                request: HTTPMessageView {
                    startLine: request.startLine,
                    headers: request.headers,
                    body: Some(body),
                },
            },
            _ => self,
        }
    }
}

/// A connection goes forward only: once its request is complete or refused
/// it stays as it is, and while it waits for a body no line moves it.
pub proof fn lemma_forward_only(state: ConnectionView, line: Seq<char>, body: Seq<char>)
    ensures
        !(state is ReadingHeaders) ==> state.after_line(line) == state,
        !(state is ReadingBody) ==> state.after_body(body) == state,
        state is ReadingBody ==> state.after_body(body) is Dispatching,
        state.after_line(line) is ReadingHeaders ==> state is ReadingHeaders,
{
}

impl Connection {
    /// A connection on which nothing was read yet.
    pub fn open() -> (connection: Connection)
        ensures
            connection@ == (ConnectionView::ReadingHeaders { received: Seq::empty() }),
    {
        Connection::ReadingHeaders { received: String::new() }
    }

    /// Takes one more line of the header section, with its line break.
    pub fn receiveLine(self, line: &str) -> (next: Connection)
        ensures
            next@ == self@.after_line(line@),
    {
        match self {
            Connection::ReadingHeaders { received } => {
                let mut encodedHTTPRequest = received;
                encodedHTTPRequest.append(line);
                if endsWith(encodedHTTPRequest.as_str(), "\r\n\r\n") {
                    afterHeaders(encodedHTTPRequest.as_str())
                } else {
                    Connection::ReadingHeaders { received: encodedHTTPRequest }
                }
            },
            other => other,
        }
    }

    /// Takes the body that was read, and completes the request with it.
    pub fn receiveBody(self, body: String) -> (next: Connection)
        ensures
            next@ == self@.after_body(body@),
    {
        match self {
            Connection::ReadingBody { request, length } => {
                let mut httpRequest = request;
                httpRequest.body = Some(body);
                Connection::Dispatching { request: httpRequest }
            },
            other => other,
        }
    }
}

/// Decodes a complete header section, and decides whether a body follows.
pub fn afterHeaders(encodedHTTPRequest: &str) -> (next: Connection)
    ensures
        next@ == after_headers(encodedHTTPRequest@),
{
    let httpRequest: HTTPRequest = match HTTPMessage::httpDecode(encodedHTTPRequest) {
        Ok(httpRequest) => httpRequest,
        Err(error) => {
            return Connection::Dropped { error };
        },
    };
    let contentLength = match httpRequest.headers.get("Content-Length") {
        None => {
            return Connection::Dispatching { request: httpRequest };
        },
        Some(contentLength) => parseDecimal(contentLength.as_str()),
    };
    match contentLength {
        Some(length) => Connection::ReadingBody { request: httpRequest, length },
        None => Connection::Dropped { error: HTTPError::InvalidContentLength },
    }
}

} // verus!
