//! Content negotiation: a response is compressed for a client that accepts
//! gzip.
use crate::decimal::{decimal, digit};
use crate::headers::{distinct_keys, lemma_put, lookup, put, Entry, Headers};
use crate::message::{HTTPMessageView, HTTPResponse};
use crate::start_line::StatusLine;
use crate::text::{equal, splitAll, split_all, views};
use flate2::write::GzEncoder;
use flate2::Compression;
use std::io::Write;
use vstd::prelude::*;
use vstd::utf8::encode_utf8;

verus! {

/// The gzip stream that the `flate2` crate makes of `data` at its default
/// compression level.
pub uninterp spec fn gzip_stream(data: Seq<u8>) -> Seq<u8>;

/// The lower-case hexadecimal digit for a value below sixteen.
pub open spec fn hex_digit(value: nat) -> char
    recommends
        value < 16,
{
    if value < 10 {
        digit(value)
    } else {
        (('a' as u8) + (value - 10)) as u8 as char
    }
}

/// `data` in hexadecimal: two lower-case digits for each byte, the high half
/// first.
pub open spec fn hex_text(data: Seq<u8>) -> Seq<char> {
    Seq::new(
        2 * data.len(),
        |i: int|
            if i % 2 == 0 {
                hex_digit(data[i / 2] as nat / 16)
            } else {
                hex_digit(data[i / 2] as nat % 16)
            },
    )
}

/// Compresses `data` with `flate2::write::GzEncoder` at
/// `Compression::default()`: a new encoder over an empty vector, `write_all`
/// of the data, then `finish`. Believed, not proved: the encoder reports no
/// error, and what it hands back is the gzip stream of `data`. The errors of
/// the encoder are those of the writer that it fills, and a vector in memory
/// has none; its compressor refuses work only after an error or after the
/// end of the stream, and this call gives it neither. The stream's header
/// holds neither time nor file name, so the same data give the same stream.
#[verifier::external_body]
fn gzip(data: &[u8]) -> (stream: Option<Vec<u8>>)
    ensures
        stream is Some,
        stream matches Some(bytes) ==> bytes@ == gzip_stream(data@),
{
    let mut encoder = GzEncoder::new(Vec::new(), Compression::default());
    match encoder.write_all(data) {
        Ok(()) => match encoder.finish() {
            Ok(bytes) => Some(bytes),
            Err(_) => None,
        },
        Err(_) => None,
    }
}

/// Writes `data` in hexadecimal with `hex::encode`. Believed, not proved: the
/// result holds two lower-case hexadecimal digits for each byte, in order, the
/// high half of a byte before its low half.
#[verifier::external_body]
fn hexEncode(data: &[u8]) -> (text: String)
    ensures
        text@ == hex_text(data@),
{
    hex::encode(data)
}

/// The client lists `gzip` among the encodings that it accepts. The list is
/// the value of `Accept-Encoding`, its items parted by a comma and a space.
pub open spec fn accepts_gzip(requestHeaders: Seq<Entry>) -> bool {
    match lookup(requestHeaders, "Accept-Encoding"@) {
        Some(list) => split_all(list, ", "@).contains("gzip"@),
        None => false,
    }
}

/// The response once its body is replaced by the gzip stream `stream`,
/// written in hexadecimal: the body is that text, and three headers say so.
pub open spec fn compressed(response: HTTPMessageView<StatusLine>, stream: Seq<u8>)
    -> HTTPMessageView<StatusLine> {
    HTTPMessageView {
        startLine: response.startLine,
        headers: put(
            put(
                put(response.headers, "Content-Encoding"@, "gzip"@),
                "Content-Type"@,
                "text/plain"@,
            ),
            "Content-Length"@,
            decimal(encode_utf8(hex_text(stream)).len()),
        ),
        body: Some(hex_text(stream)),
    }
}

/// The response that goes out for `response`: compressed where it has a body
/// and the client accepts gzip, unchanged otherwise.
pub open spec fn negotiated(requestHeaders: Seq<Entry>, response: HTTPMessageView<StatusLine>)
    -> HTTPMessageView<StatusLine> {
    if response.body is Some && accepts_gzip(requestHeaders) {
        compressed(response, gzip_stream(encode_utf8(response.body->0)))
    } else {
        response
    }
}

/// A hexadecimal text takes one byte for each digit on the wire: twice as
/// many bytes as it stands for.
pub proof fn lemma_hex_length(data: Seq<u8>)
    ensures
        encode_utf8(hex_text(data)).len() == 2 * data.len(),
{
    let text = hex_text(data);
    assert(vstd::utf8::is_ascii_chars(text)) by {
        assert forall|i: int| 0 <= i < text.len() implies '\0' <= #[trigger] text[i]
            <= '\u{7f}' by {
            let byte = data[i / 2] as nat;
            assert(byte / 16 < 16);
            assert(byte % 16 < 16);
        }
    }
    vstd::utf8::is_ascii_chars_encode_utf8(text);
}

/// Whether the client lists `gzip` among the encodings that it accepts.
pub fn acceptsGzip(requestHeaders: &Headers) -> (accepted: bool)
    ensures
        accepted == accepts_gzip(requestHeaders@),
{
    match requestHeaders.get("Accept-Encoding") {
        None => false,
        Some(clientSupportedEncodings) => {
            let encodings = splitAll(clientSupportedEncodings.as_str(), ", ");
            let ghost listed = views(encodings@);
            let mut at: usize = 0;
            while at < encodings.len()
                invariant
                    at <= encodings.len(),
                    listed == views(encodings@),
                    listed == split_all(clientSupportedEncodings@, ", "@),
                    lookup(requestHeaders@, "Accept-Encoding"@) == Some(
                        clientSupportedEncodings@,
                    ),
                    forall|i: int| 0 <= i < at ==> listed[i] != "gzip"@,
                decreases encodings.len() - at,
            {
                if equal(encodings[at], "gzip") {
                    assert(listed[at as int] == "gzip"@);
                    return true;
                }
                at += 1;
            }
            false
        },
    }
}

/// Replaces the body of `response` by the gzip stream `stream`, written in
/// hexadecimal, and sets `Content-Encoding`, `Content-Type` and
/// `Content-Length` to match.
pub fn compressBody(response: &mut HTTPResponse, stream: &[u8])
    ensures
        final(response)@ == compressed(old(response)@, stream@),
        lookup(final(response)@.headers, "Content-Length"@) == Some(decimal(2 * stream@.len())),
{
    response.headers.insert("Content-Encoding".to_owned(), "gzip".to_owned());
    let body = hexEncode(stream);
    response.setBody(body.as_str());
    proof {
        lemma_hex_length(stream@);
        let first = put(old(response)@.headers, "Content-Encoding"@, "gzip"@);
        let second = put(first, "Content-Type"@, "text/plain"@);
        lemma_put(first, "Content-Type"@, "text/plain"@);
        lemma_put(second, "Content-Length"@, decimal(2 * stream@.len()));
    }
}

/// What compression changes, and what it leaves: the body is the stream in
/// hexadecimal, two digits for each of its bytes; `Content-Encoding`,
/// `Content-Type` and `Content-Length` say so, the length being that of the
/// new body; the start line and every other header stay as they were.
pub proof fn lemma_compressed(response: HTTPMessageView<StatusLine>, stream: Seq<u8>)
    requires
        distinct_keys(response.headers),
    ensures
        compressed(response, stream).startLine == response.startLine,
        compressed(response, stream).body == Some(hex_text(stream)),
        hex_text(stream).len() == 2 * stream.len(),
        distinct_keys(compressed(response, stream).headers),
        lookup(compressed(response, stream).headers, "Content-Encoding"@) == Some("gzip"@),
        lookup(compressed(response, stream).headers, "Content-Type"@) == Some("text/plain"@),
        lookup(compressed(response, stream).headers, "Content-Length"@) == Some(
            decimal(encode_utf8(hex_text(stream)).len()),
        ),
        encode_utf8(hex_text(stream)).len() == 2 * stream.len(),
        forall|name: Seq<char>|
            name != "Content-Encoding"@ && name != "Content-Type"@ && name != "Content-Length"@
                ==> lookup(compressed(response, stream).headers, name) == lookup(
                response.headers,
                name,
            ),
{
    reveal_strlit("Content-Encoding");
    reveal_strlit("Content-Type");
    reveal_strlit("Content-Length");
    assert("Content-Encoding"@.len() == 16);
    assert("Content-Type"@.len() == 12);
    assert("Content-Length"@.len() == 14);
    lemma_hex_length(stream);
    let length = decimal(encode_utf8(hex_text(stream)).len());
    let first = put(response.headers, "Content-Encoding"@, "gzip"@);
    let second = put(first, "Content-Type"@, "text/plain"@);
    lemma_put(response.headers, "Content-Encoding"@, "gzip"@);
    lemma_put(first, "Content-Type"@, "text/plain"@);
    lemma_put(second, "Content-Length"@, length);
}

/// Gives the response the encoding that the client asked for. Only gzip is
/// known: where the response has a body and the client accepts gzip, the
/// body is compressed; otherwise the response stays as it is.
pub fn negotiateContent(requestHeaders: &Headers, response: &mut HTTPResponse)
    ensures
        final(response)@ == negotiated(requestHeaders@, old(response)@),
{
    let stream = match &response.body {
        None => {
            return ;
        },
        Some(body) => {
            if !acceptsGzip(requestHeaders) {
                return ;
            }
            gzip(body.as_str().as_bytes())
        },
    };
    compressBody(response, stream.unwrap().as_slice());
}

} // verus!
