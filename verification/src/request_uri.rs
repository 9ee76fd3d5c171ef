//! Request URIs.
use crate::text::{equal, starts_with, startsWith};
use vstd::prelude::*;

verus! {

/// The request URI of a request line, by its shape.
#[derive(Debug, PartialEq, Eq)]
pub enum HTTPRequestURI {
    /// `*`: the request is about the server itself, not about one resource.
    ///
    /// Example: `OPTIONS * HTTP/1.1`.
    Asterisk,
    /// A URI with its scheme, as a client sends it to a proxy.
    ///
    /// Example: `GET http://www.w3.org/pub/WWW/TheProject.html HTTP/1.1`.
    AbsoluteURI(String),
    /// The path of a resource on this server. A request for the server root
    /// gives `/`.
    ///
    /// Example: `GET /pub/WWW/TheProject.html HTTP/1.1`.
    AbsolutePath(String),
}

/// What a request URI is in contracts: its shape, and its text as characters.
pub enum RequestURI {
    Asterisk,
    AbsoluteURI(Seq<char>),
    AbsolutePath(Seq<char>),
}

impl RequestURI {
    /// The token that stands for this URI on the wire.
    pub open spec fn text(self) -> Seq<char> {
        match self {
            Self::Asterisk => "*"@,
            Self::AbsoluteURI(uri) => uri,
            Self::AbsolutePath(path) => path,
        }
    }

    /// The URI that the token `text` stands for.
    pub open spec fn of_text(text: Seq<char>) -> RequestURI {
        if text == "*"@ {
            Self::Asterisk
        } else if is_absolute_uri(text) {
            Self::AbsoluteURI(text)
        } else {
            Self::AbsolutePath(text)
        }
    }

    /// Reading a token loses nothing: the URI it stands for has that token as
    /// its text.
    pub proof fn lemma_text_of_text(text: Seq<char>)
        ensures
            Self::of_text(text).text() == text,
    {
    }
}

/// `text` names a scheme that marks an absolute URI.
pub open spec fn is_absolute_uri(text: Seq<char>) -> bool {
    starts_with(text, "http://"@) || starts_with(text, "https://"@)
}

impl View for HTTPRequestURI {
    type V = RequestURI;

    open spec fn view(&self) -> RequestURI {
        match self {
            Self::Asterisk => RequestURI::Asterisk,
            Self::AbsoluteURI(uri) => RequestURI::AbsoluteURI(uri@),
            Self::AbsolutePath(path) => RequestURI::AbsolutePath(path@),
        }
    }
}

/// Returns whether the given request URI string is an absolute URI.
pub fn isAbsoluteURI(requestURI: &str) -> (absolute: bool)
    ensures
        absolute == is_absolute_uri(requestURI@),
{
    startsWith(requestURI, "http://") || startsWith(requestURI, "https://")
}

impl HTTPRequestURI {
    pub fn from(requestURI: &str) -> (uri: Self)
        ensures
            uri@ == RequestURI::of_text(requestURI@),
            uri@.text() == requestURI@,
    {
        if equal(requestURI, "*") {
            Self::Asterisk
        } else if isAbsoluteURI(requestURI) {
            Self::AbsoluteURI(requestURI.to_owned())
        } else {
            Self::AbsolutePath(requestURI.to_owned())
        }
    }

    pub fn to_str(&self) -> (text: &str)
        ensures
            text@ == self@.text(),
    {
        match self {
            Self::Asterisk => "*",
            Self::AbsoluteURI(absoluteURI) => absoluteURI.as_str(),
            Self::AbsolutePath(absolutePath) => absolutePath.as_str(),
        }
    }
}

impl Default for HTTPRequestURI {
    fn default() -> (uri: Self)
        ensures
            uri@ == RequestURI::AbsolutePath("/"@),
    {
        HTTPRequestURI::AbsolutePath("/".to_owned())
    }
}

} // verus!
