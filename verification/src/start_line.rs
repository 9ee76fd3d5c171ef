//! The first line of a message: a request line or a status line.
use crate::decimal::{decimal, writeDecimal};
use crate::error::HTTPError;
use crate::message::HTTPEncodable;
use crate::method::HTTPMethod;
use crate::request_uri::{HTTPRequestURI, RequestURI};
use crate::status_code::HTTPStatusCode;
use crate::text::{
    contains, lemma_join_without, lemma_split_all_cut, lemma_split_all_len, lemma_split_all_whole,
    occurs_at, splitAll, split_all, views,
};
use crate::version::HTTPVersion;
use vstd::prelude::*;
use vstd::string::StringExecFns;

verus! {

/// The first line of a request.
#[derive(Debug, PartialEq, Eq)]
pub struct RequestLine {
    /// Indicates the method to be performed on the resource identified by the
    /// Request-URI.
    pub method: HTTPMethod,
    /// A Uniform Resource Identifier (URI) that identifies the resource upon
    /// which to apply the request.
    pub requestURI: HTTPRequestURI,
    /// The version of the protocol that the client speaks.
    pub protocolVersion: HTTPVersion,
}

/// What a request line is in contracts.
pub struct RequestLineView {
    pub method: HTTPMethod,
    pub requestURI: RequestURI,
    pub protocolVersion: HTTPVersion,
}

impl View for RequestLine {
    type V = RequestLineView;

    open spec fn view(&self) -> RequestLineView {
        RequestLineView {
            method: self.method,
            requestURI: self.requestURI@,
            protocolVersion: self.protocolVersion,
        }
    }
}

impl HTTPEncodable for RequestLine {
    /// Method, request URI and version, with one space between.
    open spec fn wire(value: RequestLineView) -> Seq<char> {
        value.method.token() + " "@ + value.requestURI.text() + " "@
            + value.protocolVersion.token()
    }

    /// The line is cut at every space. The first three tokens are read as
    /// method, request URI and version; any further token counts for nothing.
    open spec fn parse(text: Seq<char>) -> Result<RequestLineView, HTTPError> {
        let tokens = split_all(text, " "@);
        match HTTPMethod::of_token(tokens[0]) {
            None => Err(HTTPError::UnknownMethod),
            Some(method) => if tokens.len() < 2 {
                Err(HTTPError::RequestURINotFound)
            } else if tokens.len() < 3 {
                Err(HTTPError::ProtocolVersionNotFound)
            } else {
                match HTTPVersion::of_token(tokens[2]) {
                    None => Err(HTTPError::UnsupportedProtocolVersion),
                    Some(protocolVersion) => Ok(
                        RequestLineView {
                            method,
                            requestURI: RequestURI::of_text(tokens[1]),
                            protocolVersion,
                        },
                    ),
                }
            },
        }
    }

    fn httpEncode(&self, encoding: &mut String) -> (written: Result<(), HTTPError>) {
        encoding.append(self.method.as_ref());
        encoding.append(" ");
        encoding.append(self.requestURI.to_str());
        encoding.append(" ");
        encoding.append(self.protocolVersion.as_ref());
        assert(encoding@ =~= old(encoding)@ + Self::wire(self@));
        Ok(())
    }

    fn httpDecode(encoding: &str) -> (decoded: Result<Self, HTTPError>) {
        let parts = splitAll(encoding, " ");
        proof {
            lemma_split_all_len(encoding@, " "@);
        }
        let ghost tokens = views(parts@);
        assert(tokens[0] == parts@[0]@);

        let method = match HTTPMethod::parse(parts[0]) {
            Some(method) => method,
            None => {
                return Err(HTTPError::UnknownMethod);
            },
        };

        if parts.len() < 2 {
            return Err(HTTPError::RequestURINotFound);
        }
        assert(tokens[1] == parts@[1]@);
        let requestURI = HTTPRequestURI::from(parts[1]);

        if parts.len() < 3 {
            return Err(HTTPError::ProtocolVersionNotFound);
        }
        assert(tokens[2] == parts@[2]@);
        let protocolVersion = match HTTPVersion::parse(parts[2]) {
            Some(protocolVersion) => protocolVersion,
            None => {
                return Err(HTTPError::UnsupportedProtocolVersion);
            },
        };

        Ok(Self { method, requestURI, protocolVersion })
    }
}

impl RequestLineView {
    /// The request URI can stand as one token of a line: it holds no space
    /// and no line break, and it has the shape that its text stands for.
    pub open spec fn well_formed(self) -> bool {
        &&& !contains(self.requestURI.text(), " "@)
        &&& !contains(self.requestURI.text(), "\r\n"@)
        &&& RequestURI::of_text(self.requestURI.text()) == self.requestURI
    }
}

/// A line of fewer than three tokens is no request line: whatever its tokens
/// are, it is refused.
pub proof fn lemma_too_few_tokens(text: Seq<char>)
    requires
        split_all(text, " "@).len() < 3,
    ensures
        RequestLine::parse(text) is Err,
{
}

/// A line whose first token names no method is refused for that reason. The
/// method `UNKNOWN` stands for no other token than its own.
pub proof fn lemma_unknown_method(text: Seq<char>)
    requires
        HTTPMethod::of_token(split_all(text, " "@)[0]) is None,
    ensures
        RequestLine::parse(text) == Err::<RequestLineView, HTTPError>(HTTPError::UnknownMethod),
{
}

/// A text of capital letters holds none of the marks that part tokens and
/// lines.
proof fn lemma_letters_only(text: Seq<char>, pattern: Seq<char>)
    requires
        forall|i: int| 0 <= i < text.len() ==> 'A' <= #[trigger] text[i] <= 'Z',
        pattern.len() > 0,
        pattern[0] == ' ' || pattern[0] == '\r',
    ensures
        !contains(text, pattern),
{
    assert forall|at: int| !occurs_at(text, pattern, at) by {
        if occurs_at(text, pattern, at) {
            assert(text.subrange(at, at + pattern.len())[0] == text[at]);
        }
    }
}

/// The version token holds none of the marks that part tokens and lines.
proof fn lemma_version_token(version: HTTPVersion, pattern: Seq<char>)
    requires
        pattern.len() > 0,
        pattern[0] == ' ' || pattern[0] == '\r',
    ensures
        !contains(version.token(), pattern),
        HTTPVersion::of_token(version.token()) == Some(version),
{
    reveal_strlit("HTTP/1.1");
    let text = version.token();
    assert forall|at: int| !occurs_at(text, pattern, at) by {
        if occurs_at(text, pattern, at) {
            assert(text.subrange(at, at + pattern.len())[0] == text[at]);
        }
    }
}

/// A well-formed request line that is written and read back is the same
/// request line; and its wire text holds no line break.
pub proof fn lemma_request_line_round_trip(line: RequestLineView)
    requires
        line.well_formed(),
    ensures
        RequestLine::parse(RequestLine::wire(line)) == Ok::<RequestLineView, HTTPError>(line),
        !contains(RequestLine::wire(line), "\r\n"@),
{
    reveal_strlit(" ");
    reveal_strlit("\r\n");
    let space = " "@;
    let newline = "\r\n"@;
    let method = line.method.token();
    let uri = line.requestURI.text();
    let version = line.protocolVersion.token();
    let rest = uri + space + version;
    assert(RequestLine::wire(line) =~= method + space + rest);
    line.method.lemma_token();
    lemma_letters_only(method, space);
    lemma_letters_only(method, newline);
    lemma_version_token(line.protocolVersion, space);
    lemma_version_token(line.protocolVersion, newline);

    // The line holds no line break.
    lemma_join_without(uri, space, version, newline);
    lemma_join_without(method, space, rest, newline);

    // The line has three tokens: method, request URI and version.
    lemma_split_all_cut(method, space, rest);
    lemma_split_all_cut(uri, space, version);
    lemma_split_all_whole(version, space);
    let tokens = split_all(RequestLine::wire(line), space);
    assert(tokens =~= seq![method, uri, version]);
}

/// A request line in the making, before its method is chosen. The request
/// URI is `/` and the version HTTP/1.1 unless set otherwise.
pub struct RequestLineBuilder {
    pub requestURI: HTTPRequestURI,
    pub protocolVersion: HTTPVersion,
}

/// A request line in the making, with its method chosen.
pub struct RequestLineDraft {
    pub line: RequestLine,
}

impl RequestLine {
    pub fn builder() -> (builder: RequestLineBuilder)
        ensures
            builder.requestURI@ == RequestURI::AbsolutePath("/"@),
            builder.protocolVersion == HTTPVersion::One,
    {
        RequestLineBuilder {
            requestURI: HTTPRequestURI::default(),
            protocolVersion: HTTPVersion::One,
        }
    }
}

impl RequestLineBuilder {
    pub fn method(self, method: HTTPMethod) -> (draft: RequestLineDraft)
        ensures
            draft.line.method == method,
            draft.line.requestURI == self.requestURI,
            draft.line.protocolVersion == self.protocolVersion,
    {
        RequestLineDraft {
            line: RequestLine {
                method,
                requestURI: self.requestURI,
                protocolVersion: self.protocolVersion,
            },
        }
    }

    pub fn requestURI(self, requestURI: HTTPRequestURI) -> (builder: Self)
        ensures
            builder.requestURI == requestURI,
            builder.protocolVersion == self.protocolVersion,
    {
        RequestLineBuilder { requestURI, protocolVersion: self.protocolVersion }
    }

    pub fn protocolVersion(self, protocolVersion: HTTPVersion) -> (builder: Self)
        ensures
            builder.requestURI == self.requestURI,
            builder.protocolVersion == protocolVersion,
    {
        RequestLineBuilder { requestURI: self.requestURI, protocolVersion }
    }
}

impl RequestLineDraft {
    pub fn requestURI(self, requestURI: HTTPRequestURI) -> (draft: Self)
        ensures
            draft.line.method == self.line.method,
            draft.line.requestURI == requestURI,
            draft.line.protocolVersion == self.line.protocolVersion,
    {
        RequestLineDraft {
            line: RequestLine {
                method: self.line.method,
                requestURI,
                protocolVersion: self.line.protocolVersion,
            },
        }
    }

    pub fn protocolVersion(self, protocolVersion: HTTPVersion) -> (draft: Self)
        ensures
            draft.line.method == self.line.method,
            draft.line.requestURI == self.line.requestURI,
            draft.line.protocolVersion == protocolVersion,
    {
        RequestLineDraft {
            line: RequestLine {
                method: self.line.method,
                requestURI: self.line.requestURI,
                protocolVersion,
            },
        }
    }

    pub fn build(self) -> (line: RequestLine)
        ensures
            line == self.line,
    {
        self.line
    }
}

/// The first line of a response. The reason phrase is not stored: it is the
/// one that belongs to the status code.
#[derive(Clone, Copy, Debug, PartialEq, Eq, Structural)]
pub struct StatusLine {
    pub protocolVersion: HTTPVersion,
    /// A 3-digit integer result code of the attempt to understand and satisfy
    /// the request.
    pub statusCode: HTTPStatusCode,
}

impl View for StatusLine {
    type V = StatusLine;

    open spec fn view(&self) -> StatusLine {
        *self
    }
}

impl HTTPEncodable for StatusLine {
    /// Version, status number and reason phrase, with one space between.
    open spec fn wire(value: StatusLine) -> Seq<char> {
        value.protocolVersion.token() + " "@ + decimal(value.statusCode.number()) + " "@
            + value.statusCode.reason_phrase()
    }

    /// A status line is never read: the server writes responses and receives
    /// none.
    open spec fn parse(text: Seq<char>) -> Result<StatusLine, HTTPError> {
        Err(HTTPError::StatusLineDecode)
    }

    fn httpEncode(&self, encoding: &mut String) -> (written: Result<(), HTTPError>) {
        encoding.append(self.protocolVersion.as_ref());
        encoding.append(" ");
        writeDecimal(self.statusCode.code() as usize, encoding);
        encoding.append(" ");
        encoding.append(self.statusCode.getReasonPhrase());
        assert(encoding@ =~= old(encoding)@ + Self::wire(self@));
        Ok(())
    }

    fn httpDecode(_encoding: &str) -> (decoded: Result<Self, HTTPError>) {
        Err(HTTPError::StatusLineDecode)
    }
}

/// A status line in the making: HTTP/1.1 and `200 OK` unless set otherwise.
pub struct StatusLineBuilder {
    pub line: StatusLine,
}

impl StatusLine {
    pub fn builder() -> (builder: StatusLineBuilder)
        ensures
            builder.line.protocolVersion == HTTPVersion::One,
            builder.line.statusCode == HTTPStatusCode::OK,
    {
        StatusLineBuilder { line: StatusLine::default() }
    }
}

impl StatusLineBuilder {
    pub fn protocolVersion(self, protocolVersion: HTTPVersion) -> (builder: Self)
        ensures
            builder.line.protocolVersion == protocolVersion,
            builder.line.statusCode == self.line.statusCode,
    {
        StatusLineBuilder {
            line: StatusLine { protocolVersion, statusCode: self.line.statusCode },
        }
    }

    pub fn statusCode(self, statusCode: HTTPStatusCode) -> (builder: Self)
        ensures
            builder.line.protocolVersion == self.line.protocolVersion,
            builder.line.statusCode == statusCode,
    {
        StatusLineBuilder {
            line: StatusLine { protocolVersion: self.line.protocolVersion, statusCode },
        }
    }

    pub fn build(self) -> (line: StatusLine)
        ensures
            line == self.line,
    {
        self.line
    }
}

impl Default for StatusLine {
    fn default() -> (line: Self)
        ensures
            line.protocolVersion == HTTPVersion::One,
            line.statusCode == HTTPStatusCode::OK,
    {
        StatusLine { protocolVersion: HTTPVersion::One, statusCode: HTTPStatusCode::OK }
    }
}

} // verus!
