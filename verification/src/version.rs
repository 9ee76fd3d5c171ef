//! Protocol versions.
use crate::text::equal;
use vstd::prelude::*;

verus! {

/// The protocol versions that this library speaks.
#[derive(Clone, Copy, Debug, PartialEq, Eq, Structural)]
pub enum HTTPVersion {
    One,
}

impl HTTPVersion {
    /// The token that stands for this version on the wire.
    pub open spec fn token(self) -> Seq<char> {
        match self {
            Self::One => "HTTP/1.1"@,
        }
    }

    /// The version whose token is exactly `token`, if there is one.
    pub open spec fn of_token(token: Seq<char>) -> Option<HTTPVersion> {
        if token == "HTTP/1.1"@ {
            Some(Self::One)
        } else {
            None
        }
    }

    pub fn as_ref(&self) -> (token: &'static str)
        ensures
            token@ == self.token(),
    {
        match self {
            Self::One => "HTTP/1.1",
        }
    }

    pub fn parse(token: &str) -> (version: Option<HTTPVersion>)
        ensures
            version == Self::of_token(token@),
    {
        if equal(token, "HTTP/1.1") {
            Some(Self::One)
        } else {
            None
        }
    }
}

impl Default for HTTPVersion {
    fn default() -> (version: Self)
        ensures
            version == HTTPVersion::One,
    {
        HTTPVersion::One
    }
}

} // verus!
