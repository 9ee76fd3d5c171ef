//! Messages, and their wire text.
use crate::decimal::{decimal, decimalText};
use crate::error::HTTPError;
use crate::headers::{distinct_keys, has_key, lemma_put, lookup, position, put, Entry, Headers};
use crate::method::HTTPMethod;
use crate::start_line::{
    lemma_request_line_round_trip, lemma_too_few_tokens, lemma_unknown_method, RequestLine,
    RequestLineView, StatusLine,
};
use crate::status_code::HTTPStatusCode;
use crate::text::{
    contains, lemma_first_after, lemma_join_without, lemma_split_all_cut, lemma_split_all_len,
    lemma_split_all_whole, occurs_at, splitAll, splitOnce, split_all, split_once, views,
};
use std::marker::PhantomData;
use vstd::prelude::*;
use vstd::string::StringExecFns;
use vstd::utf8::encode_utf8;

verus! {

pub type HTTPRequest = HTTPMessage<RequestLine>;

pub type HTTPResponse = HTTPMessage<StatusLine>;

/// What can be written to the wire as text and read back from it.
pub trait HTTPEncodable: Sized + View {
    /// The wire text of a value.
    spec fn wire(value: Self::V) -> Seq<char>;

    /// The value that a wire text stands for, or why it stands for none.
    spec fn parse(text: Seq<char>) -> Result<Self::V, HTTPError>;

    /// Appends the wire text of `self` to `encoding`. Writing to a string
    /// cannot fail.
    fn httpEncode(&self, encoding: &mut String) -> (written: Result<(), HTTPError>)
        ensures
            written is Ok,
            final(encoding)@ == old(encoding)@ + Self::wire(self@),
    ;

    /// Reads a value from its wire text.
    fn httpDecode(encoding: &str) -> (decoded: Result<Self, HTTPError>)
        ensures
            match decoded {
                Ok(value) => Self::parse(encoding@) == Ok::<Self::V, HTTPError>(value@),
                Err(error) => Self::parse(encoding@) == Err::<Self::V, HTTPError>(error),
            },
    ;
}

/// Represents requests from client to server / responses from server to client.
#[derive(Debug, PartialEq, Eq)]
pub struct HTTPMessage<T: HTTPEncodable> {
    pub startLine: T,
    pub headers: Headers,
    pub body: Option<String>,
}

/// What a message is in contracts: its start line, its headers in their
/// order, and its body, each as mathematical text.
pub struct HTTPMessageView<S> {
    pub startLine: S,
    pub headers: Seq<Entry>,
    pub body: Option<Seq<char>>,
}

impl<T: HTTPEncodable> View for HTTPMessage<T> {
    type V = HTTPMessageView<T::V>;

    open spec fn view(&self) -> HTTPMessageView<T::V> {
        HTTPMessageView {
            startLine: self.startLine@,
            headers: self.headers@,
            body: match self.body {
                Some(text) => Some(text@),
                None => None,
            },
        }
    }
}

/// One header on the wire: name, colon and space, value, line break.
pub open spec fn header_line(header: Entry) -> Seq<char> {
    header.0 + ": "@ + header.1 + "\r\n"@
}

/// The header section on the wire, without the blank line that closes it.
pub open spec fn header_section(headers: Seq<Entry>) -> Seq<char>
    decreases headers.len(),
{
    if headers.len() == 0 {
        Seq::empty()
    } else {
        header_section(headers.drop_last()) + header_line(headers.last())
    }
}

/// The position of the first empty line at or after `from`; the number of
/// lines where there is none.
pub open spec fn blank_line(lines: Seq<Seq<char>>, from: int) -> int
    decreases lines.len() - from,
{
    if from >= lines.len() {
        lines.len() as int
    } else if lines[from].len() == 0 {
        from
    } else {
        blank_line(lines, from + 1)
    }
}

/// The headers that the header lines give when read in order: a later line
/// replaces the value of an earlier one with the same name.
pub open spec fn collect(lines: Seq<Seq<char>>) -> Seq<Entry>
    decreases lines.len(),
{
    if lines.len() == 0 {
        Seq::empty()
    } else {
        let header = split_once(lines.last(), ": "@)->0;
        put(collect(lines.drop_last()), header.0, header.1)
    }
}

/// Some line among `lines` holds no `": "`.
pub open spec fn malformed_header(lines: Seq<Seq<char>>) -> bool {
    exists|i: int| 0 <= i < lines.len() && split_once(#[trigger] lines[i], ": "@) is None
}

/// The body that the line after the blank line stands for: none where that
/// line is empty.
pub open spec fn body_of(line: Seq<char>) -> Option<Seq<char>> {
    if line.len() == 0 {
        None
    } else {
        Some(line)
    }
}

impl<T: HTTPEncodable> HTTPEncodable for HTTPMessage<T> {
    /// The start line, a line break, one line for each header, a blank line,
    /// and the body where there is one.
    open spec fn wire(value: HTTPMessageView<T::V>) -> Seq<char> {
        T::wire(value.startLine) + "\r\n"@ + header_section(value.headers) + "\r\n"@ + match value.body {
            Some(text) => text,
            None => Seq::empty(),
        }
    }

    /// The text is cut into lines at every line break. The first line is the
    /// start line. The lines after it, up to the first empty one, are the
    /// headers. That empty line must itself be closed by a line break; what
    /// stands between that break and the next one, or the end, is the body.
    open spec fn parse(text: Seq<char>) -> Result<HTTPMessageView<T::V>, HTTPError> {
        let lines = split_all(text, "\r\n"@);
        let end = blank_line(lines, 1);
        match T::parse(lines[0]) {
            Err(error) => Err(error),
            Ok(startLine) => if malformed_header(lines.subrange(1, end)) {
                Err(HTTPError::HeaderValueNotFound)
            } else if end + 1 >= lines.len() {
                Err(HTTPError::HeaderSectionEndedUnexpectedly)
            } else {
                Ok(
                    HTTPMessageView {
                        startLine,
                        headers: collect(lines.subrange(1, end)),
                        body: body_of(lines[end + 1]),
                    },
                )
            },
        }
    }

    fn httpEncode(&self, encoding: &mut String) -> (written: Result<(), HTTPError>) {
        // Encode the start-line section.
        let _ = self.startLine.httpEncode(encoding);
        encoding.append("\r\n");

        // Encode the headers section.
        let count = self.headers.len();
        let mut at: usize = 0;
        while at < count
            invariant
                at <= count,
                count == self.headers@.len(),
                encoding@ == old(encoding)@ + T::wire(self.startLine@) + "\r\n"@ + header_section(
                    self.headers@.take(at as int),
                ),
            decreases count - at,
        {
            if let Some((key, value)) = self.headers.entry(at) {
                encoding.append(key);
                encoding.append(": ");
                encoding.append(value);
                encoding.append("\r\n");
            }
            proof {
                let longer = self.headers@.take(at + 1);
                assert(longer.drop_last() =~= self.headers@.take(at as int));
                assert(longer.last() == self.headers@[at as int]);
                assert(encoding@ =~= old(encoding)@ + T::wire(self.startLine@) + "\r\n"@ + (
                header_section(longer.drop_last()) + header_line(longer.last())));
            }
            at += 1;
        }
        assert(self.headers@.take(at as int) =~= self.headers@);
        encoding.append("\r\n");

        // Encode the body section.
        match &self.body {
            Some(body) => {
                encoding.append(body.as_str());
            },
            None => {
                assert(encoding@ =~= encoding@ + Seq::<char>::empty());
            },
        }
        Ok(())
    }

    fn httpDecode(encoding: &str) -> (decoded: Result<Self, HTTPError>) {
        let lines = splitAll(encoding, "\r\n");
        proof {
            lemma_split_all_len(encoding@, "\r\n"@);
        }
        let ghost texts = views(lines@);

        // Decoding the start-line section.
        assert(texts[0] == lines@[0]@);
        let startLine = match T::httpDecode(lines[0]) {
            Ok(startLine) => startLine,
            Err(error) => {
                return Err(error);
            },
        };

        // Decoding the headers section.
        let mut headers = Headers::new();
        let mut at: usize = 1;
        assert(texts.subrange(1, 1) =~= Seq::<Seq<char>>::empty());
        while at < lines.len() && !lines[at].is_empty()
            invariant
                1 <= at <= lines.len(),
                texts == views(lines@),
                texts == split_all(encoding@, "\r\n"@),
                T::parse(texts[0]) == Ok::<T::V, HTTPError>(startLine@),
                blank_line(texts, 1) == blank_line(texts, at as int),
                !malformed_header(texts.subrange(1, at as int)),
                headers@ == collect(texts.subrange(1, at as int)),
            decreases lines.len() - at,
        {
            assert(texts[at as int] == lines@[at as int]@);
            let ghost longer = texts.subrange(1, at + 1);
            assert(longer.drop_last() =~= texts.subrange(1, at as int));
            assert(longer.last() == texts[at as int]);
            match splitOnce(lines[at], ": ") {
                Some((key, value)) => {
                    headers.insert(key.to_owned(), value.to_owned());
                    assert(!malformed_header(longer)) by {
                        assert forall|i: int| 0 <= i < longer.len() implies split_once(
                            #[trigger] longer[i],
                            ": "@,
                        ) is Some by {
                            if i < longer.len() - 1 {
                                assert(longer[i] == longer.drop_last()[i]);
                            }
                        }
                    }
                },
                None => {
                    proof {
                        lemma_malformed_before_blank(texts, at as int);
                    }
                    return Err(HTTPError::HeaderValueNotFound);
                },
            }
            at += 1;
        }
        assert(blank_line(texts, 1) == at);
        if lines.len() - at <= 1 {
            return Err(HTTPError::HeaderSectionEndedUnexpectedly);
        }

        // Decoding the body.
        assert(texts[at + 1] == lines@[at + 1]@);
        let body = if lines[at + 1].is_empty() {
            None
        } else {
            Some(lines[at + 1].to_owned())
        };
        Ok(HTTPMessage { startLine, headers, body })
    }
}

/// A line without `": "` that stands before the first empty line makes the
/// header section malformed.
proof fn lemma_malformed_before_blank(lines: Seq<Seq<char>>, at: int)
    requires
        1 <= at < lines.len(),
        lines[at].len() > 0,
        blank_line(lines, 1) == blank_line(lines, at),
        split_once(lines[at], ": "@) is None,
    ensures
        malformed_header(lines.subrange(1, blank_line(lines, 1))),
{
    lemma_blank_line_bounds(lines, at + 1);
    let end = blank_line(lines, 1);
    assert(lines.subrange(1, end)[at - 1] == lines[at]);
}

/// The first empty line at or after `from` stands at or after `from`, and no
/// line between is empty.
pub proof fn lemma_blank_line_bounds(lines: Seq<Seq<char>>, from: int)
    requires
        0 <= from <= lines.len(),
    ensures
        from <= blank_line(lines, from) <= lines.len(),
        blank_line(lines, from) < lines.len() ==> lines[blank_line(lines, from)].len() == 0,
        forall|i: int| from <= i < blank_line(lines, from) ==> (#[trigger] lines[i]).len() > 0,
    decreases lines.len() - from,
{
    if from < lines.len() && lines[from].len() != 0 {
        lemma_blank_line_bounds(lines, from + 1);
    }
}

/// A text whose first line is no start line is no message, for the reason
/// that makes the line no start line. Nothing is made of the rest.
pub proof fn lemma_start_line_refused<T: HTTPEncodable>(text: Seq<char>)
    requires
        T::parse(split_all(text, "\r\n"@)[0]) is Err,
    ensures
        HTTPMessage::<T>::parse(text) == Err::<HTTPMessageView<T::V>, HTTPError>(
            T::parse(split_all(text, "\r\n"@)[0])->Err_0,
        ),
{
}

/// A text whose first line has fewer than three tokens is no request.
pub proof fn lemma_request_too_few_tokens(text: Seq<char>)
    requires
        split_all(split_all(text, "\r\n"@)[0], " "@).len() < 3,
    ensures
        HTTPMessage::<RequestLine>::parse(text) is Err,
{
    lemma_too_few_tokens(split_all(text, "\r\n"@)[0]);
}

/// A text whose first token names no method is no request, and the error
/// says that the method is unknown.
pub proof fn lemma_request_unknown_method(text: Seq<char>)
    requires
        HTTPMethod::of_token(split_all(split_all(text, "\r\n"@)[0], " "@)[0])
            is None,
    ensures
        HTTPMessage::<RequestLine>::parse(text) == Err::<
            HTTPMessageView<RequestLineView>,
            HTTPError,
        >(HTTPError::UnknownMethod),
{
    lemma_unknown_method(split_all(text, "\r\n"@)[0]);
}

/// The header can stand as one line: its name holds no `": "`, and neither
/// its name nor its value holds a line break.
pub open spec fn well_formed_header(header: Entry) -> bool {
    &&& !contains(header.0, ": "@)
    &&& !contains(header.0, "\r\n"@)
    &&& !contains(header.1, "\r\n"@)
}

impl<S> HTTPMessageView<S> {
    /// The message can be told apart from its wire text: no two headers
    /// have the same name, every header can stand as one line, and the body,
    /// where there is one, is not empty and holds no line break.
    pub open spec fn well_formed(self) -> bool {
        &&& distinct_keys(self.headers)
        &&& forall|i: int|
            0 <= i < self.headers.len() ==> well_formed_header(#[trigger] self.headers[i])
        &&& self.body matches Some(text) ==> text.len() > 0 && !contains(text, "\r\n"@)
    }
}

/// The header lines of a header section, without their line breaks.
pub open spec fn header_texts(headers: Seq<Entry>) -> Seq<Seq<char>> {
    Seq::new(headers.len(), |i: int| headers[i].0 + ": "@ + headers[i].1)
}

/// Cutting a header section into lines gives one line for each header, and
/// then the lines of what follows the section.
proof fn lemma_lines_of_section(headers: Seq<Entry>, tail: Seq<char>)
    requires
        forall|i: int| 0 <= i < headers.len() ==> well_formed_header(#[trigger] headers[i]),
    ensures
        split_all(header_section(headers) + tail, "\r\n"@) == header_texts(headers) + split_all(
            tail,
            "\r\n"@,
        ),
    decreases headers.len(),
{
    reveal_strlit("\r\n");
    reveal_strlit(": ");
    let newline = "\r\n"@;
    if headers.len() == 0 {
        assert(header_section(headers) + tail =~= tail);
        assert(header_texts(headers) + split_all(tail, newline) =~= split_all(tail, newline));
    } else {
        let before = headers.drop_last();
        let last = headers.last();
        let line = last.0 + ": "@ + last.1;
        let longer = line + newline + tail;
        assert(well_formed_header(headers[headers.len() - 1]));
        assert forall|i: int| 0 <= i < before.len() implies well_formed_header(
            #[trigger] before[i],
        ) by {
            assert(before[i] == headers[i]);
        }
        lemma_lines_of_section(before, longer);
        assert(header_section(headers) + tail =~= header_section(before) + longer);
        lemma_join_without(last.0, ": "@, last.1, newline);
        lemma_split_all_cut(line, newline, tail);
        assert(header_texts(headers) =~= header_texts(before) + seq![line]);
        assert(header_texts(before) + (seq![line] + split_all(tail, newline)) =~= header_texts(
            headers,
        ) + split_all(tail, newline));
    }
}

/// Reading the lines that well-formed headers with distinct names were
/// written to gives those headers back, in their order.
proof fn lemma_collect(headers: Seq<Entry>)
    requires
        distinct_keys(headers),
        forall|i: int| 0 <= i < headers.len() ==> well_formed_header(#[trigger] headers[i]),
    ensures
        collect(header_texts(headers)) == headers,
        !malformed_header(header_texts(headers)),
        forall|i: int| 0 <= i < headers.len() ==> (#[trigger] header_texts(headers)[i]).len() > 0,
    decreases headers.len(),
{
    reveal_strlit(": ");
    let lines = header_texts(headers);
    assert forall|i: int| 0 <= i < lines.len() implies split_once(#[trigger] lines[i], ": "@) == Some(
        headers[i],
    ) && lines[i].len() > 0 by {
        assert(well_formed_header(headers[i]));
        lemma_first_after(headers[i].0, ": "@, headers[i].1);
        assert(lines[i] =~= headers[i].0 + ": "@ + headers[i].1 + Seq::<char>::empty());
    }
    if headers.len() == 0 {
        assert(collect(lines) =~= headers);
    } else {
        let before = headers.drop_last();
        let last = headers.last();
        assert forall|i: int| 0 <= i < before.len() implies well_formed_header(
            #[trigger] before[i],
        ) by {
            assert(before[i] == headers[i]);
        }
        assert(distinct_keys(before)) by {
            assert forall|i: int, j: int|
                0 <= i < before.len() && 0 <= j < before.len() && i != j implies (
            #[trigger] before[i]).0 != (#[trigger] before[j]).0 by {
                assert(before[i] == headers[i] && before[j] == headers[j]);
            }
        }
        lemma_collect(before);
        assert(lines.drop_last() =~= header_texts(before));
        assert(split_once(lines.last(), ": "@) == Some(last));
        assert(!has_key(before, last.0)) by {
            if has_key(before, last.0) {
                let at = position(before, last.0);
                assert(before[at] == headers[at]);
                assert(headers[at].0 == headers[headers.len() - 1].0);
            }
        }
        assert(put(before, last.0, last.1) =~= headers);
    }
}

/// Where the lines from `from` up to `end` are not empty and the line at
/// `end` is, that line is the first empty one.
proof fn lemma_blank_line_at(lines: Seq<Seq<char>>, from: int, end: int)
    requires
        0 <= from <= end < lines.len(),
        forall|i: int| from <= i < end ==> (#[trigger] lines[i]).len() > 0,
        lines[end].len() == 0,
    ensures
        blank_line(lines, from) == end,
    decreases end - from,
{
    if from < end {
        lemma_blank_line_at(lines, from + 1, end);
    }
}

/// A well-formed message that is written and read back is the same message,
/// where its start line is one that reads back as itself and takes one line.
pub proof fn lemma_round_trip<T: HTTPEncodable>(message: HTTPMessageView<T::V>)
    requires
        message.well_formed(),
        T::parse(T::wire(message.startLine)) == Ok::<T::V, HTTPError>(message.startLine),
        !contains(T::wire(message.startLine), "\r\n"@),
    ensures
        HTTPMessage::<T>::parse(HTTPMessage::<T>::wire(message)) == Ok::<
            HTTPMessageView<T::V>,
            HTTPError,
        >(message),
{
    reveal_strlit("\r\n");
    let newline = "\r\n"@;
    let start = T::wire(message.startLine);
    let section = header_section(message.headers);
    let body = match message.body {
        Some(text) => text,
        None => Seq::<char>::empty(),
    };
    let text = HTTPMessage::<T>::wire(message);
    let count = message.headers.len() as int;
    let written = header_texts(message.headers);

    // The lines of the text: the start line, one line for each header, the
    // blank line, and the body.
    let after_start = section + (newline + body);
    assert(text =~= start + newline + after_start);
    lemma_split_all_cut(start, newline, after_start);
    lemma_lines_of_section(message.headers, newline + body);
    assert(newline + body =~= Seq::<char>::empty() + newline + body);
    assert(!contains(Seq::<char>::empty(), newline)) by {
        assert forall|at: int| !occurs_at(Seq::<char>::empty(), newline, at) by {}
    }
    lemma_split_all_cut(Seq::<char>::empty(), newline, body);
    assert(!contains(body, newline)) by {
        if message.body is None {
            assert forall|at: int| !occurs_at(body, newline, at) by {}
        }
    }
    lemma_split_all_whole(body, newline);
    let lines = split_all(text, newline);
    assert(lines =~= seq![start] + written + seq![Seq::<char>::empty()] + seq![body]);

    // The header section ends at the blank line.
    lemma_collect(message.headers);
    let end = count + 1;
    assert forall|i: int| 1 <= i < end implies (#[trigger] lines[i]).len() > 0 by {
        assert(lines[i] == written[i - 1]);
    }
    lemma_blank_line_at(lines, 1, end);
    assert(lines.subrange(1, end) =~= written);
    assert(lines[0] == start);
    assert(lines[end + 1] == body);
    let parsed = HTTPMessage::<T>::parse(text);
    assert(parsed is Ok);
    assert(parsed->Ok_0.headers == message.headers);
    assert(parsed->Ok_0.body == message.body);
    assert(parsed->Ok_0.startLine == message.startLine);
}

/// A request that is written and read back is the same request: this holds
/// of every well-formed request whose request line is well-formed.
pub proof fn lemma_request_round_trip(request: HTTPMessageView<RequestLineView>)
    requires
        request.startLine.well_formed(),
        request.well_formed(),
    ensures
        HTTPMessage::<RequestLine>::parse(HTTPMessage::<RequestLine>::wire(request)) == Ok::<
            HTTPMessageView<RequestLineView>,
            HTTPError,
        >(request),
{
    lemma_request_line_round_trip(request.startLine);
    lemma_round_trip::<RequestLine>(request);
}

impl<T: HTTPEncodable> HTTPMessage<T> {
    /// Gives the message the body `body`, and the two headers that describe
    /// it: `Content-Type: text/plain`, and `Content-Length` with the number of
    /// bytes that the body takes on the wire.
    pub fn setBody(&mut self, body: &str)
        ensures
            final(self)@.startLine == old(self)@.startLine,
            final(self)@.body == Some(body@),
            final(self)@.headers == put(
                put(old(self)@.headers, "Content-Type"@, "text/plain"@),
                "Content-Length"@,
                decimal(encode_utf8(body@).len()),
            ),
            lookup(final(self)@.headers, "Content-Type"@) == Some("text/plain"@),
            lookup(final(self)@.headers, "Content-Length"@) == Some(
                decimal(encode_utf8(body@).len()),
            ),
            forall|name: Seq<char>|
                name != "Content-Type"@ && name != "Content-Length"@ ==> lookup(
                    final(self)@.headers,
                    name,
                ) == lookup(old(self)@.headers, name),
    {
        self.body = Some(body.to_owned());

        let bodyLen = decimalText(body.as_bytes().len());

        // Set appropriate HTTP headers.
        self.headers.insert("Content-Type".to_owned(), "text/plain".to_owned());
        self.headers.insert("Content-Length".to_owned(), bodyLen);
        proof {
            reveal_strlit("Content-Type");
            reveal_strlit("Content-Length");
            assert("Content-Type"@.len() != "Content-Length"@.len());
            let typed = put(old(self)@.headers, "Content-Type"@, "text/plain"@);
            lemma_put(old(self)@.headers, "Content-Type"@, "text/plain"@);
            lemma_put(typed, "Content-Length"@, decimal(encode_utf8(body@).len()));
        }
    }
}

/// A message in the making, before it has its start line. It has no headers
/// and no body unless set otherwise.
pub struct HTTPMessageBuilder<T: HTTPEncodable> {
    pub headers: Headers,
    pub body: Option<String>,
    pub marker: PhantomData<T>,
}

/// A message in the making, with its start line.
pub struct HTTPMessageDraft<T: HTTPEncodable> {
    pub message: HTTPMessage<T>,
}

impl<T: HTTPEncodable> HTTPMessage<T> {
    pub fn builder() -> (builder: HTTPMessageBuilder<T>)
        ensures
            builder.headers@ == Seq::<Entry>::empty(),
            builder.body is None,
    {
        HTTPMessageBuilder {
            headers: Headers::new(),
            body: None,
            marker: PhantomData,
        }
    }
}

impl<T: HTTPEncodable> HTTPMessageBuilder<T> {
    pub fn startLine(self, startLine: T) -> (draft: HTTPMessageDraft<T>)
        ensures
            draft.message.startLine == startLine,
            draft.message.headers == self.headers,
            draft.message.body == self.body,
    {
        HTTPMessageDraft {
            message: HTTPMessage { startLine, headers: self.headers, body: self.body },
        }
    }

    pub fn headers(self, headers: Headers) -> (builder: Self)
        ensures
            builder.headers == headers,
            builder.body == self.body,
    {
        HTTPMessageBuilder { headers, body: self.body, marker: PhantomData }
    }

    pub fn body(self, body: Option<String>) -> (builder: Self)
        ensures
            builder.headers == self.headers,
            builder.body == body,
    {
        HTTPMessageBuilder { headers: self.headers, body, marker: PhantomData }
    }
}

impl<T: HTTPEncodable> HTTPMessageDraft<T> {
    pub fn headers(self, headers: Headers) -> (draft: Self)
        ensures
            draft.message.startLine == self.message.startLine,
            draft.message.headers == headers,
            draft.message.body == self.message.body,
    {
        HTTPMessageDraft {
            message: HTTPMessage {
                startLine: self.message.startLine,
                headers,
                body: self.message.body,
            },
        }
    }

    pub fn body(self, body: Option<String>) -> (draft: Self)
        ensures
            draft.message.startLine == self.message.startLine,
            draft.message.headers == self.message.headers,
            draft.message.body == body,
    {
        HTTPMessageDraft {
            message: HTTPMessage {
                startLine: self.message.startLine,
                headers: self.message.headers,
                body,
            },
        }
    }

    pub fn build(self) -> (message: HTTPMessage<T>)
        ensures
            message == self.message,
    {
        self.message
    }
}

impl HTTPMessage<StatusLine> {
    pub fn setStatusCode(&mut self, statusCode: HTTPStatusCode)
        ensures
            final(self).startLine.statusCode == statusCode,
            final(self).startLine.protocolVersion == old(self).startLine.protocolVersion,
            final(self)@.headers == old(self)@.headers,
            final(self)@.body == old(self)@.body,
    {
        self.startLine.statusCode = statusCode;
    }
}

} // verus!
