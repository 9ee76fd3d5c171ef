//! Request methods.
use crate::text::equal;
use vstd::prelude::*;

verus! {

/// The request methods of HTTP/1.1, and `UNKNOWN`.
#[derive(Clone, Copy, Debug, PartialEq, Eq, Structural)]
pub enum HTTPMethod {
    OPTIONS,
    GET,
    HEAD,
    POST,
    PUT,
    DELETE,
    TRACE,
    CONNECT,
    UNKNOWN,
}

impl HTTPMethod {
    /// The token that stands for this method on the wire.
    pub open spec fn token(self) -> Seq<char> {
        match self {
            Self::OPTIONS => "OPTIONS"@,
            Self::GET => "GET"@,
            Self::HEAD => "HEAD"@,
            Self::POST => "POST"@,
            Self::PUT => "PUT"@,
            Self::DELETE => "DELETE"@,
            Self::TRACE => "TRACE"@,
            Self::CONNECT => "CONNECT"@,
            Self::UNKNOWN => "UNKNOWN"@,
        }
    }

    /// The method whose token is exactly `token`, if there is one. Letter case
    /// counts.
    pub open spec fn of_token(token: Seq<char>) -> Option<HTTPMethod> {
        if token == "OPTIONS"@ {
            Some(Self::OPTIONS)
        } else if token == "GET"@ {
            Some(Self::GET)
        } else if token == "HEAD"@ {
            Some(Self::HEAD)
        } else if token == "POST"@ {
            Some(Self::POST)
        } else if token == "PUT"@ {
            Some(Self::PUT)
        } else if token == "DELETE"@ {
            Some(Self::DELETE)
        } else if token == "TRACE"@ {
            Some(Self::TRACE)
        } else if token == "CONNECT"@ {
            Some(Self::CONNECT)
        } else if token == "UNKNOWN"@ {
            Some(Self::UNKNOWN)
        } else {
            None
        }
    }

    pub fn as_ref(&self) -> (token: &'static str)
        ensures
            token@ == self.token(),
    {
        match self {
            Self::OPTIONS => "OPTIONS",
            Self::GET => "GET",
            Self::HEAD => "HEAD",
            Self::POST => "POST",
            Self::PUT => "PUT",
            Self::DELETE => "DELETE",
            Self::TRACE => "TRACE",
            Self::CONNECT => "CONNECT",
            Self::UNKNOWN => "UNKNOWN",
        }
    }

    pub fn parse(token: &str) -> (method: Option<HTTPMethod>)
        ensures
            method == Self::of_token(token@),
    {
        if equal(token, "OPTIONS") {
            Some(Self::OPTIONS)
        } else if equal(token, "GET") {
            Some(Self::GET)
        } else if equal(token, "HEAD") {
            Some(Self::HEAD)
        } else if equal(token, "POST") {
            Some(Self::POST)
        } else if equal(token, "PUT") {
            Some(Self::PUT)
        } else if equal(token, "DELETE") {
            Some(Self::DELETE)
        } else if equal(token, "TRACE") {
            Some(Self::TRACE)
        } else if equal(token, "CONNECT") {
            Some(Self::CONNECT)
        } else if equal(token, "UNKNOWN") {
            Some(Self::UNKNOWN)
        } else {
            None
        }
    }

    /// Every method is the one that its own token names, and its token holds
    /// neither a space nor a line break.
    pub proof fn lemma_token(self)
        ensures
            Self::of_token(self.token()) == Some(self),
            forall|i: int|
                0 <= i < self.token().len() ==> 'A' <= #[trigger] self.token()[i] <= 'Z',
    {
        reveal_strlit("OPTIONS");
        reveal_strlit("GET");
        reveal_strlit("HEAD");
        reveal_strlit("POST");
        reveal_strlit("PUT");
        reveal_strlit("DELETE");
        reveal_strlit("TRACE");
        reveal_strlit("CONNECT");
        reveal_strlit("UNKNOWN");
        assert("OPTIONS"@.len() == 7 && "OPTIONS"@[0] == 'O');
        assert("GET"@.len() == 3 && "GET"@[0] == 'G');
        assert("HEAD"@.len() == 4 && "HEAD"@[0] == 'H');
        assert("POST"@.len() == 4 && "POST"@[0] == 'P');
        assert("PUT"@.len() == 3 && "PUT"@[0] == 'P');
        assert("DELETE"@.len() == 6);
        assert("TRACE"@.len() == 5);
        assert("CONNECT"@.len() == 7 && "CONNECT"@[0] == 'C');
        assert("UNKNOWN"@.len() == 7 && "UNKNOWN"@[0] == 'U');
    }
}

} // verus!
