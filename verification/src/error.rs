//! What can go wrong.
use vstd::prelude::*;

verus! {

/// Why a message could not be decoded, or a connection could not be served.
#[derive(Clone, Copy, Debug, PartialEq, Eq, Structural)]
pub enum HTTPError {
    /// The first token of the request line names no method.
    UnknownMethod,
    /// The request line ends after the method.
    RequestURINotFound,
    /// The request line ends after the request URI.
    ProtocolVersionNotFound,
    /// The third token of the request line names no supported version.
    UnsupportedProtocolVersion,
    /// A header line holds no `": "`.
    HeaderValueNotFound,
    /// The text ends before the blank line that closes the header section.
    HeaderSectionEndedUnexpectedly,
    /// A status line was asked to decode itself: the server writes status
    /// lines and never reads one.
    StatusLineDecode,
    /// The `Content-Length` header is no non-negative integer that fits the
    /// machine.
    InvalidContentLength,
}

/// The kinds of failure.
#[derive(Clone, Copy, Debug, PartialEq, Eq, Structural)]
pub enum HTTPErrorKind {
    /// The text is not a well-formed message. The text is not read again.
    Framing,
    /// The connection cannot go on. Only this connection ends.
    Connection,
    /// Something was asked that is never done.
    UnsupportedOperation,
}

impl HTTPError {
    /// The kind of failure that this error is.
    pub open spec fn error_kind(self) -> HTTPErrorKind {
        match self {
            Self::UnknownMethod
            | Self::RequestURINotFound
            | Self::ProtocolVersionNotFound
            | Self::UnsupportedProtocolVersion
            | Self::HeaderValueNotFound
            | Self::HeaderSectionEndedUnexpectedly => HTTPErrorKind::Framing,
            Self::StatusLineDecode => HTTPErrorKind::UnsupportedOperation,
            Self::InvalidContentLength => HTTPErrorKind::Connection,
        }
    }

    pub fn kind(&self) -> (kind: HTTPErrorKind)
        ensures
            kind == self.error_kind(),
    {
        match self {
            Self::UnknownMethod
            | Self::RequestURINotFound
            | Self::ProtocolVersionNotFound
            | Self::UnsupportedProtocolVersion
            | Self::HeaderValueNotFound
            | Self::HeaderSectionEndedUnexpectedly => HTTPErrorKind::Framing,
            Self::StatusLineDecode => HTTPErrorKind::UnsupportedOperation,
            Self::InvalidContentLength => HTTPErrorKind::Connection,
        }
    }

    /// A sentence that says what went wrong.
    pub open spec fn sentence(self) -> Seq<char> {
        match self {
            Self::UnknownMethod => "Unknown method"@,
            Self::RequestURINotFound => "request URI not found"@,
            Self::ProtocolVersionNotFound => "protocol version not found"@,
            Self::UnsupportedProtocolVersion => "Unknown / un-supported protocol version"@,
            Self::HeaderValueNotFound => "header value not found"@,
            Self::HeaderSectionEndedUnexpectedly => "header section ended unexpectedly"@,
            Self::StatusLineDecode => "a status line cannot be decoded"@,
            Self::InvalidContentLength => "Content-Length is not a length"@,
        }
    }

    /// A sentence for a log.
    pub fn message(&self) -> (text: &'static str)
        ensures
            text@ == self.sentence(),
    {
        match self {
            Self::UnknownMethod => "Unknown method",
            Self::RequestURINotFound => "request URI not found",
            Self::ProtocolVersionNotFound => "protocol version not found",
            Self::UnsupportedProtocolVersion => "Unknown / un-supported protocol version",
            Self::HeaderValueNotFound => "header value not found",
            Self::HeaderSectionEndedUnexpectedly => "header section ended unexpectedly",
            Self::StatusLineDecode => "a status line cannot be decoded",
            Self::InvalidContentLength => "Content-Length is not a length",
        }
    }
}

} // verus!
