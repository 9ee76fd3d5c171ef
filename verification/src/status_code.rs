//! Status codes and their reason phrases.
use vstd::prelude::*;

verus! {

/// The status codes of HTTP/1.1. Each stands for one three-digit number and one
/// reason phrase; the phrase is looked up, never stored.
#[derive(Clone, Copy, Debug, PartialEq, Eq, Structural)]
pub enum HTTPStatusCode {
    // Informational: the request was received and processing continues.
    Continue,
    SwitchingProtocols,
    // Success: the action was received, understood and accepted.
    OK,
    Created,
    Accepted,
    NonAuthoritativeInformation,
    NoContent,
    ResetContent,
    PartialContent,
    // Redirection: further action must be taken to complete the request.
    MultipleChoices,
    MovedPermanently,
    Found,
    SeeOther,
    NotModified,
    UseProxy,
    TemporaryRedirect,
    // Client error: the request has bad syntax or cannot be fulfilled.
    BadRequest,
    Unauthorized,
    PaymentRequired,
    Forbidden,
    NotFound,
    MethodNotAllowed,
    NotAcceptable,
    ProxyAuthenticationRequired,
    RequestTimeout,
    Conflict,
    Gone,
    LengthRequired,
    PreconditionFailed,
    RequestEntityTooLarge,
    RequestURITooLong,
    UnsupportedMediaType,
    RequestedRangeNotSatisfiable,
    ExpectationFailed,
    // Server error: the server failed to fulfil an apparently valid request.
    InternalServerError,
    NotImplemented,
    BadGateway,
    ServiceUnavailable,
    GatewayTimeout,
    HTTPVersionNotSupported,
}

impl HTTPStatusCode {
    /// The number that stands for this status on the wire.
    pub open spec fn number(self) -> nat {
        match self {
            Self::Continue => 100,
            Self::SwitchingProtocols => 101,
            Self::OK => 200,
            Self::Created => 201,
            Self::Accepted => 202,
            Self::NonAuthoritativeInformation => 203,
            Self::NoContent => 204,
            Self::ResetContent => 205,
            Self::PartialContent => 206,
            Self::MultipleChoices => 300,
            Self::MovedPermanently => 301,
            Self::Found => 302,
            Self::SeeOther => 303,
            Self::NotModified => 304,
            Self::UseProxy => 305,
            Self::TemporaryRedirect => 307,
            Self::BadRequest => 400,
            Self::Unauthorized => 401,
            Self::PaymentRequired => 402,
            Self::Forbidden => 403,
            Self::NotFound => 404,
            Self::MethodNotAllowed => 405,
            Self::NotAcceptable => 406,
            Self::ProxyAuthenticationRequired => 407,
            Self::RequestTimeout => 408,
            Self::Conflict => 409,
            Self::Gone => 410,
            Self::LengthRequired => 411,
            Self::PreconditionFailed => 412,
            Self::RequestEntityTooLarge => 413,
            Self::RequestURITooLong => 414,
            Self::UnsupportedMediaType => 415,
            Self::RequestedRangeNotSatisfiable => 416,
            Self::ExpectationFailed => 417,
            Self::InternalServerError => 500,
            Self::NotImplemented => 501,
            Self::BadGateway => 502,
            Self::ServiceUnavailable => 503,
            Self::GatewayTimeout => 504,
            Self::HTTPVersionNotSupported => 505,
        }
    }

    /// The reason phrase that accompanies this status on the wire.
    pub open spec fn reason_phrase(self) -> Seq<char> {
        match self {
            Self::Continue => "Continue"@,
            Self::SwitchingProtocols => "Switching Protocols"@,
            Self::OK => "OK"@,
            Self::Created => "Created"@,
            Self::Accepted => "Accepted"@,
            Self::NonAuthoritativeInformation => "Non-Authoritative Information"@,
            Self::NoContent => "No Content"@,
            Self::ResetContent => "Reset Content"@,
            Self::PartialContent => "Partial Content"@,
            Self::MultipleChoices => "Multiple Choices"@,
            Self::MovedPermanently => "Moved Permanently"@,
            Self::Found => "Found"@,
            Self::SeeOther => "See Other"@,
            Self::NotModified => "Not Modified"@,
            Self::UseProxy => "Use Proxy"@,
            Self::TemporaryRedirect => "Temporary Redirect"@,
            Self::BadRequest => "Bad Request"@,
            Self::Unauthorized => "Unauthorized"@,
            Self::PaymentRequired => "Payment Required"@,
            Self::Forbidden => "Forbidden"@,
            Self::NotFound => "Not Found"@,
            Self::MethodNotAllowed => "Method Not Allowed"@,
            Self::NotAcceptable => "Not Acceptable"@,
            Self::ProxyAuthenticationRequired => "Proxy Authentication Required"@,
            Self::RequestTimeout => "Request Time-out"@,
            Self::Conflict => "Conflict"@,
            Self::Gone => "Gone"@,
            Self::LengthRequired => "Length Required"@,
            Self::PreconditionFailed => "Precondition Failed"@,
            Self::RequestEntityTooLarge => "Request Entity Too Large"@,
            Self::RequestURITooLong => "Request-URI Too Large"@,
            Self::UnsupportedMediaType => "Unsupported Media Type"@,
            Self::RequestedRangeNotSatisfiable => "Requested range Not Satisfiable"@,
            Self::ExpectationFailed => "Expectation Failed"@,
            Self::InternalServerError => "Internal Server Error"@,
            Self::NotImplemented => "Not Implemented"@,
            Self::BadGateway => "Bad Gateway"@,
            Self::ServiceUnavailable => "Service Unavailable"@,
            Self::GatewayTimeout => "Gateway Time-out"@,
            Self::HTTPVersionNotSupported => "HTTP Version not supported"@,
        }
    }

    pub fn code(&self) -> (code: u16)
        ensures
            code == self.number(),
            100 <= code <= 999,
    {
        match self {
            Self::Continue => 100,
            Self::SwitchingProtocols => 101,
            Self::OK => 200,
            Self::Created => 201,
            Self::Accepted => 202,
            Self::NonAuthoritativeInformation => 203,
            Self::NoContent => 204,
            Self::ResetContent => 205,
            Self::PartialContent => 206,
            Self::MultipleChoices => 300,
            Self::MovedPermanently => 301,
            Self::Found => 302,
            Self::SeeOther => 303,
            Self::NotModified => 304,
            Self::UseProxy => 305,
            Self::TemporaryRedirect => 307,
            Self::BadRequest => 400,
            Self::Unauthorized => 401,
            Self::PaymentRequired => 402,
            Self::Forbidden => 403,
            Self::NotFound => 404,
            Self::MethodNotAllowed => 405,
            Self::NotAcceptable => 406,
            Self::ProxyAuthenticationRequired => 407,
            Self::RequestTimeout => 408,
            Self::Conflict => 409,
            Self::Gone => 410,
            Self::LengthRequired => 411,
            Self::PreconditionFailed => 412,
            Self::RequestEntityTooLarge => 413,
            Self::RequestURITooLong => 414,
            Self::UnsupportedMediaType => 415,
            Self::RequestedRangeNotSatisfiable => 416,
            Self::ExpectationFailed => 417,
            Self::InternalServerError => 500,
            Self::NotImplemented => 501,
            Self::BadGateway => 502,
            Self::ServiceUnavailable => 503,
            Self::GatewayTimeout => 504,
            Self::HTTPVersionNotSupported => 505,
        }
    }

    pub fn getReasonPhrase(&self) -> (phrase: &'static str)
        ensures
            phrase@ == self.reason_phrase(),
    {
        match self {
            Self::Continue => "Continue",
            Self::SwitchingProtocols => "Switching Protocols",
            Self::OK => "OK",
            Self::Created => "Created",
            Self::Accepted => "Accepted",
            Self::NonAuthoritativeInformation => "Non-Authoritative Information",
            Self::NoContent => "No Content",
            Self::ResetContent => "Reset Content",
            Self::PartialContent => "Partial Content",
            Self::MultipleChoices => "Multiple Choices",
            Self::MovedPermanently => "Moved Permanently",
            Self::Found => "Found",
            Self::SeeOther => "See Other",
            Self::NotModified => "Not Modified",
            Self::UseProxy => "Use Proxy",
            Self::TemporaryRedirect => "Temporary Redirect",
            Self::BadRequest => "Bad Request",
            Self::Unauthorized => "Unauthorized",
            Self::PaymentRequired => "Payment Required",
            Self::Forbidden => "Forbidden",
            Self::NotFound => "Not Found",
            Self::MethodNotAllowed => "Method Not Allowed",
            Self::NotAcceptable => "Not Acceptable",
            Self::ProxyAuthenticationRequired => "Proxy Authentication Required",
            Self::RequestTimeout => "Request Time-out",
            Self::Conflict => "Conflict",
            Self::Gone => "Gone",
            Self::LengthRequired => "Length Required",
            Self::PreconditionFailed => "Precondition Failed",
            Self::RequestEntityTooLarge => "Request Entity Too Large",
            Self::RequestURITooLong => "Request-URI Too Large",
            Self::UnsupportedMediaType => "Unsupported Media Type",
            Self::RequestedRangeNotSatisfiable => "Requested range Not Satisfiable",
            Self::ExpectationFailed => "Expectation Failed",
            Self::InternalServerError => "Internal Server Error",
            Self::NotImplemented => "Not Implemented",
            Self::BadGateway => "Bad Gateway",
            Self::ServiceUnavailable => "Service Unavailable",
            Self::GatewayTimeout => "Gateway Time-out",
            Self::HTTPVersionNotSupported => "HTTP Version not supported",
        }
    }
}

impl Default for HTTPStatusCode {
    fn default() -> (code: Self)
        ensures
            code == HTTPStatusCode::OK,
    {
        HTTPStatusCode::OK
    }
}

} // verus!
