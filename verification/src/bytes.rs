//! Text and its bytes: how a pattern that stands in a text stands in the
//! bytes of that text, and the other way round.
use crate::text::{contains, lemma_first_occurrence_unique, occurs_at, split_once};
use vstd::prelude::*;
use vstd::utf8::{
    decode_utf8, decode_utf8_encode_utf8, decode_utf8_split, encode_scalar, encode_utf8,
    encode_utf8_decode_utf8, encode_utf8_valid_utf8, is_char_boundary,
    is_char_boundary_iff_not_is_continuation_byte, length_of_first_scalar, pop_first_scalar,
    valid_first_scalar, valid_utf8, valid_utf8_split,
};

verus! {

/// `pattern` stands in `bytes` at position `at`.
pub open spec fn stands_at(bytes: Seq<u8>, pattern: Seq<u8>, at: int) -> bool {
    &&& 0 <= at
    &&& at + pattern.len() <= bytes.len()
    &&& bytes.subrange(at, at + pattern.len()) == pattern
}

/// The bytes of two texts in a row are the bytes of the first, then the
/// bytes of the second.
pub proof fn lemma_encode_concat(left: Seq<char>, right: Seq<char>)
    ensures
        encode_utf8(left + right) == encode_utf8(left) + encode_utf8(right),
    decreases left.len(),
{
    if left.len() == 0 {
        assert(left + right =~= right);
        assert(encode_utf8(left) + encode_utf8(right) =~= encode_utf8(right));
    } else {
        assert((left + right).drop_first() =~= left.drop_first() + right);
        lemma_encode_concat(left.drop_first(), right);
        assert(encode_utf8(left + right) =~= encode_scalar(left[0] as u32) + (encode_utf8(
            left.drop_first(),
        ) + encode_utf8(right)));
        assert(encode_utf8(left) + encode_utf8(right) =~= encode_scalar(left[0] as u32) + (
        encode_utf8(left.drop_first()) + encode_utf8(right)));
    }
}

/// Every character takes at least one byte.
pub proof fn lemma_encode_len(text: Seq<char>)
    ensures
        encode_utf8(text).len() >= text.len(),
    decreases text.len(),
{
    if text.len() > 0 {
        lemma_encode_len(text.drop_first());
    }
}

/// Texts with the same bytes are the same text.
pub proof fn lemma_encode_injective(left: Seq<char>, right: Seq<char>)
    requires
        encode_utf8(left) == encode_utf8(right),
    ensures
        left == right,
{
    encode_utf8_decode_utf8(left);
    encode_utf8_decode_utf8(right);
}

/// Where well-formed bytes begin with well-formed bytes, a character begins
/// where those end.
pub proof fn lemma_boundary_after(prefix: Seq<u8>, rest: Seq<u8>)
    requires
        valid_utf8(prefix),
        valid_utf8(prefix + rest),
    ensures
        is_char_boundary(prefix + rest, prefix.len() as int),
    decreases prefix.len(),
{
    let whole = prefix + rest;
    if prefix.len() > 0 {
        assert(valid_first_scalar(prefix));
        assert(whole[0] == prefix[0]);
        let first = length_of_first_scalar(prefix);
        assert(length_of_first_scalar(whole) == first);
        assert(first <= prefix.len());
        assert(pop_first_scalar(whole) =~= pop_first_scalar(prefix) + rest);
        lemma_boundary_after(pop_first_scalar(prefix), rest);
    }
}

/// The text that well-formed bytes stand for, cut where a character begins:
/// the bytes before the cut stand for what is before it.
pub proof fn lemma_cut_at_boundary(text: Seq<char>, at: int)
    requires
        is_char_boundary(encode_utf8(text), at),
        0 <= at <= encode_utf8(text).len(),
    ensures
        text == decode_utf8(encode_utf8(text).subrange(0, at)) + decode_utf8(
            encode_utf8(text).subrange(at, encode_utf8(text).len() as int),
        ),
        encode_utf8(decode_utf8(encode_utf8(text).subrange(0, at))) == encode_utf8(text).subrange(
            0,
            at,
        ),
        encode_utf8(
            decode_utf8(encode_utf8(text).subrange(at, encode_utf8(text).len() as int)),
        ) == encode_utf8(text).subrange(at, encode_utf8(text).len() as int),
        valid_utf8(encode_utf8(text).subrange(0, at)),
        valid_utf8(encode_utf8(text).subrange(at, encode_utf8(text).len() as int)),
{
    let bytes = encode_utf8(text);
    encode_utf8_valid_utf8(text);
    encode_utf8_decode_utf8(text);
    valid_utf8_split(bytes, at);
    decode_utf8_split(bytes, at);
    decode_utf8_encode_utf8(bytes.subrange(0, at));
    decode_utf8_encode_utf8(bytes.subrange(at, bytes.len() as int));
}

/// Where a pattern stands in a text, its bytes stand in the bytes of the
/// text, after the bytes of what is before it.
pub proof fn lemma_occurrence_in_bytes(text: Seq<char>, pattern: Seq<char>, at: int)
    requires
        occurs_at(text, pattern, at),
    ensures
        stands_at(
            encode_utf8(text),
            encode_utf8(pattern),
            encode_utf8(text.subrange(0, at)).len() as int,
        ),
{
    let before = text.subrange(0, at);
    let after = text.subrange(at + pattern.len(), text.len() as int);
    assert(text =~= before + pattern + after);
    lemma_encode_concat(before + pattern, after);
    lemma_encode_concat(before, pattern);
    let bytes = encode_utf8(text);
    let start = encode_utf8(before).len() as int;
    assert(bytes.subrange(start, start + encode_utf8(pattern).len()) =~= encode_utf8(pattern));
}

/// Where the bytes of a pattern stand in the bytes of a text, the pattern
/// stands in the text: the text is what the bytes before stand for, then the
/// pattern, then what the bytes after stand for.
pub proof fn lemma_occurrence_in_text(text: Seq<char>, pattern: Seq<char>, at: int)
    requires
        pattern.len() > 0,
        stands_at(encode_utf8(text), encode_utf8(pattern), at),
    ensures
        is_char_boundary(encode_utf8(text), at),
        is_char_boundary(
            encode_utf8(text).subrange(at, encode_utf8(text).len() as int),
            encode_utf8(pattern).len() as int,
        ),
        valid_utf8(encode_utf8(text).subrange(at, encode_utf8(text).len() as int)),
        text == decode_utf8(encode_utf8(text).subrange(0, at)) + pattern + decode_utf8(
            encode_utf8(text).subrange(
                at + encode_utf8(pattern).len(),
                encode_utf8(text).len() as int,
            ),
        ),
        encode_utf8(decode_utf8(encode_utf8(text).subrange(0, at))) == encode_utf8(text).subrange(
            0,
            at,
        ),
        encode_utf8(
            decode_utf8(
                encode_utf8(text).subrange(
                    at + encode_utf8(pattern).len(),
                    encode_utf8(text).len() as int,
                ),
            ),
        ) == encode_utf8(text).subrange(
            at + encode_utf8(pattern).len(),
            encode_utf8(text).len() as int,
        ),
{
    let bytes = encode_utf8(text);
    let sought = encode_utf8(pattern);
    let end = bytes.len() as int;
    encode_utf8_valid_utf8(text);
    encode_utf8_valid_utf8(pattern);
    lemma_encode_len(pattern);

    // A pattern begins with the first byte of a character, so a character
    // begins where the pattern stands.
    assert(is_char_boundary(sought, 0));
    is_char_boundary_iff_not_is_continuation_byte(sought, 0);
    assert(bytes.subrange(at, at + sought.len())[0] == bytes[at]);
    is_char_boundary_iff_not_is_continuation_byte(bytes, at);
    lemma_cut_at_boundary(text, at);
    let head = decode_utf8(bytes.subrange(0, at));
    let rest_bytes = bytes.subrange(at, end);
    let rest = decode_utf8(rest_bytes);

    // What follows begins with the pattern, so a character begins where the
    // pattern ends.
    let tail_bytes = bytes.subrange(at + sought.len(), end);
    assert(rest_bytes =~= sought + tail_bytes);
    lemma_boundary_after(sought, tail_bytes);
    lemma_cut_at_boundary(rest, sought.len() as int);
    assert(rest_bytes.subrange(0, sought.len() as int) =~= sought);
    assert(rest_bytes.subrange(sought.len() as int, rest_bytes.len() as int) =~= tail_bytes);
    encode_utf8_decode_utf8(pattern);
    assert(text =~= head + pattern + decode_utf8(tail_bytes));
}

/// Where the bytes of a pattern stand in the bytes of a text at `at` and
/// nowhere before, the pattern stands in the text after what the bytes before
/// `at` stand for, and nowhere before.
pub proof fn lemma_first_in_text(text: Seq<char>, pattern: Seq<char>, at: int)
    requires
        pattern.len() > 0,
        stands_at(encode_utf8(text), encode_utf8(pattern), at),
        forall|before: int| 0 <= before < at ==> !stands_at(
            encode_utf8(text),
            encode_utf8(pattern),
            before,
        ),
    ensures
        split_once(text, pattern) == Some(
            (
                decode_utf8(encode_utf8(text).subrange(0, at)),
                decode_utf8(
                    encode_utf8(text).subrange(
                        at + encode_utf8(pattern).len(),
                        encode_utf8(text).len() as int,
                    ),
                ),
            ),
        ),
{
    let bytes = encode_utf8(text);
    let sought = encode_utf8(pattern);
    let head = decode_utf8(bytes.subrange(0, at));
    let tail = decode_utf8(bytes.subrange(at + sought.len(), bytes.len() as int));
    lemma_occurrence_in_text(text, pattern, at);
    let found = head.len() as int;
    assert(text.subrange(found, found + pattern.len()) =~= pattern);
    assert forall|earlier: int| 0 <= earlier < found implies !occurs_at(text, pattern, earlier) by {
        if occurs_at(text, pattern, earlier) {
            lemma_occurrence_in_bytes(text, pattern, earlier);
            let shorter = text.subrange(0, earlier);
            let between = head.subrange(earlier, found);
            assert(head =~= shorter + between);
            lemma_encode_concat(shorter, between);
            lemma_encode_len(between);
            assert(encode_utf8(shorter).len() < at);
        }
    }
    lemma_first_occurrence_unique(text, pattern, found);
    assert(text.subrange(0, found) =~= head);
    assert(text.subrange(found + pattern.len(), text.len() as int) =~= tail);
}

/// Where the bytes of a pattern stand nowhere in the bytes of a text, the
/// pattern stands nowhere in the text.
pub proof fn lemma_nowhere_in_text(text: Seq<char>, pattern: Seq<char>)
    requires
        forall|at: int| !stands_at(encode_utf8(text), encode_utf8(pattern), at),
    ensures
        !contains(text, pattern),
{
    assert forall|at: int| !occurs_at(text, pattern, at) by {
        if occurs_at(text, pattern, at) {
            lemma_occurrence_in_bytes(text, pattern, at);
        }
    }
}

} // verus!
