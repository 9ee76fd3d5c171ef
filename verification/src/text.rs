//! Text cut at a pattern: before and after its leftmost occurrence, or at
//! every occurrence.
use crate::bytes::{
    lemma_encode_concat, lemma_encode_injective, lemma_encode_len, lemma_first_in_text,
    lemma_nowhere_in_text, lemma_occurrence_in_bytes, lemma_occurrence_in_text, stands_at,
};
use vstd::prelude::*;
use vstd::string::StringSliceAdditionalSpecFns;
use vstd::utf8::{decode_utf8, encode_utf8, encode_utf8_valid_utf8};

verus! {

/// `pattern` stands in `text` at position `at`.
pub open spec fn occurs_at(text: Seq<char>, pattern: Seq<char>, at: int) -> bool {
    &&& 0 <= at
    &&& at + pattern.len() <= text.len()
    &&& text.subrange(at, at + pattern.len()) == pattern
}

/// `pattern` stands somewhere in `text`.
pub open spec fn contains(text: Seq<char>, pattern: Seq<char>) -> bool {
    exists|at: int| occurs_at(text, pattern, at)
}

/// `pattern` stands in `text` at `at` and nowhere before.
pub open spec fn is_first_occurrence(text: Seq<char>, pattern: Seq<char>, at: int) -> bool {
    &&& occurs_at(text, pattern, at)
    &&& forall|before: int| 0 <= before < at ==> !occurs_at(text, pattern, before)
}

/// The leftmost position at which `pattern` stands in `text`, where there is one.
pub open spec fn first_occurrence(text: Seq<char>, pattern: Seq<char>) -> int {
    choose|at: int| is_first_occurrence(text, pattern, at)
}

/// What stands before and after the leftmost `pattern` in `text`; `None` when
/// `text` does not contain `pattern`.
pub open spec fn split_once(text: Seq<char>, pattern: Seq<char>) -> Option<
    (Seq<char>, Seq<char>),
> {
    if contains(text, pattern) {
        let at = first_occurrence(text, pattern);
        Some((text.subrange(0, at), text.subrange(at + pattern.len(), text.len() as int)))
    } else {
        None
    }
}

/// The pieces of `text` between the non-overlapping occurrences of `pattern`,
/// found from left to right. There is always at least one piece; a text that
/// ends in `pattern` has an empty last piece. An empty pattern cuts nowhere.
pub open spec fn split_all(text: Seq<char>, pattern: Seq<char>) -> Seq<Seq<char>>
    decreases text.len(),
    via split_all_decreases
{
    if pattern.len() == 0 {
        seq![text]
    } else {
        match split_once(text, pattern) {
            None => seq![text],
            Some((head, tail)) => seq![head] + split_all(tail, pattern),
        }
    }
}

#[via_fn]
proof fn split_all_decreases(text: Seq<char>, pattern: Seq<char>) {
    if contains(text, pattern) {
        lemma_first_occurrence(text, pattern);
    }
}

/// The texts that the string slices of `pieces` hold.
pub open spec fn views(pieces: Seq<&str>) -> Seq<Seq<char>> {
    Seq::new(pieces.len(), |i: int| pieces[i]@)
}

/// `text` begins with `prefix`.
pub open spec fn starts_with(text: Seq<char>, prefix: Seq<char>) -> bool {
    occurs_at(text, prefix, 0)
}

/// What follows `prefix` in `text`; `None` when `text` does not begin with
/// `prefix`.
pub open spec fn strip_prefix(text: Seq<char>, prefix: Seq<char>) -> Option<Seq<char>> {
    if starts_with(text, prefix) {
        Some(text.skip(prefix.len() as int))
    } else {
        None
    }
}

/// `text` ends with `suffix`.
pub open spec fn ends_with(text: Seq<char>, suffix: Seq<char>) -> bool {
    occurs_at(text, suffix, text.len() - suffix.len())
}

/// A text that contains a pattern has a leftmost occurrence of it.
pub proof fn lemma_first_occurrence(text: Seq<char>, pattern: Seq<char>)
    requires
        contains(text, pattern),
    ensures
        is_first_occurrence(text, pattern, first_occurrence(text, pattern)),
{
    let at = choose|at: int| occurs_at(text, pattern, at);
    lemma_least_occurrence(text, pattern, at);
}

proof fn lemma_least_occurrence(text: Seq<char>, pattern: Seq<char>, at: int)
    requires
        occurs_at(text, pattern, at),
    ensures
        exists|least: int| is_first_occurrence(text, pattern, least),
    decreases at,
{
    if exists|before: int| 0 <= before < at && occurs_at(text, pattern, before) {
        let before = choose|before: int| 0 <= before < at && occurs_at(text, pattern, before);
        lemma_least_occurrence(text, pattern, before);
    } else {
        assert(is_first_occurrence(text, pattern, at));
    }
}

/// The leftmost occurrence is the only position that is one.
pub proof fn lemma_first_occurrence_unique(text: Seq<char>, pattern: Seq<char>, at: int)
    requires
        is_first_occurrence(text, pattern, at),
    ensures
        contains(text, pattern),
        first_occurrence(text, pattern) == at,
{
    lemma_first_occurrence(text, pattern);
}

/// A text without the pattern is its own single piece.
pub proof fn lemma_split_all_whole(text: Seq<char>, pattern: Seq<char>)
    requires
        !contains(text, pattern),
    ensures
        split_all(text, pattern) == seq![text],
{
}

/// A pattern of one character, or of two that differ, cannot overlap
/// itself.
pub open spec fn plain_pattern(pattern: Seq<char>) -> bool {
    pattern.len() == 1 || (pattern.len() == 2 && pattern[0] != pattern[1])
}

/// Where `head` holds no `pattern`, the leftmost `pattern` of
/// `head + pattern + tail` is the one written out.
pub proof fn lemma_first_after(head: Seq<char>, pattern: Seq<char>, tail: Seq<char>)
    requires
        plain_pattern(pattern),
        !contains(head, pattern),
    ensures
        is_first_occurrence(head + pattern + tail, pattern, head.len() as int),
        split_once(head + pattern + tail, pattern) == Some((head, tail)),
{
    let text = head + pattern + tail;
    let at = head.len() as int;
    assert(text.subrange(at, at + pattern.len()) =~= pattern);
    assert forall|before: int| 0 <= before < at implies !occurs_at(text, pattern, before) by {
        if occurs_at(text, pattern, before) {
            let found = text.subrange(before, before + pattern.len());
            if before + pattern.len() <= at {
                assert(head.subrange(before, before + pattern.len()) =~= found);
                assert(occurs_at(head, pattern, before));
            } else {
                assert(pattern.len() == 2 && before == at - 1);
                assert(found[1] == text[at]);
                assert(text[at] == pattern[0]);
            }
        }
    }
    lemma_first_occurrence_unique(text, pattern, at);
    assert(text.subrange(0, at) =~= head);
    assert(text.subrange(at + pattern.len(), text.len() as int) =~= tail);
}

/// Where `head` holds no `pattern`, cutting `head + pattern + tail` gives
/// `head` and then the pieces of `tail`.
pub proof fn lemma_split_all_cut(head: Seq<char>, pattern: Seq<char>, tail: Seq<char>)
    requires
        plain_pattern(pattern),
        !contains(head, pattern),
    ensures
        split_all(head + pattern + tail, pattern) == seq![head] + split_all(tail, pattern),
{
    lemma_first_after(head, pattern, tail);
}

/// A text that is put together from two texts without the pattern, with
/// something between that is no part of the pattern, holds no pattern.
pub proof fn lemma_join_without(left: Seq<char>, between: Seq<char>, right: Seq<char>, pattern: Seq<char>)
    requires
        plain_pattern(pattern),
        !contains(left, pattern),
        !contains(right, pattern),
        between.len() > 0,
        forall|i: int, j: int|
            0 <= i < between.len() && 0 <= j < pattern.len() ==> between[i] != pattern[j],
    ensures
        !contains(left + between + right, pattern),
{
    let text = left + between + right;
    assert forall|at: int| !occurs_at(text, pattern, at) by {
        if occurs_at(text, pattern, at) {
            let found = text.subrange(at, at + pattern.len());
            let last = at + pattern.len() - 1;
            assert(found[0] == text[at] && found[pattern.len() - 1] == text[last]);
            if last < left.len() {
                assert(left.subrange(at, at + pattern.len()) =~= found);
                assert(occurs_at(left, pattern, at));
            } else if at >= left.len() + between.len() {
                let shift = left.len() + between.len();
                assert(right.subrange(at - shift, at - shift + pattern.len()) =~= found);
                assert(occurs_at(right, pattern, at - shift));
            } else if at >= left.len() {
                assert(text[at] == between[at - left.len()]);
            } else {
                assert(text[last] == between[last - left.len()]);
            }
        }
    }
}

/// Cutting a text gives at least one piece.
pub proof fn lemma_split_all_len(text: Seq<char>, pattern: Seq<char>)
    ensures
        split_all(text, pattern).len() >= 1,
{
}

fn standsAt(bytes: &[u8], pattern: &[u8], at: usize) -> (found: bool)
    requires
        at + pattern@.len() <= bytes@.len(),
    ensures
        found == stands_at(bytes@, pattern@, at as int),
{
    let length = bytes.len();
    let mut i: usize = 0;
    while i < pattern.len()
        invariant
            i <= pattern@.len(),
            at + pattern@.len() <= bytes@.len() == length,
            forall|j: int| 0 <= j < i ==> bytes@[at + j] == pattern@[j],
        decreases pattern@.len() - i,
    {
        if bytes[at + i] != pattern[i] {
            assert(bytes@.subrange(at as int, at + pattern@.len())[i as int] != pattern@[i as int]);
            return false;
        }
        i += 1;
    }
    assert(bytes@.subrange(at as int, at + pattern@.len()) =~= pattern@);
    true
}

fn find(bytes: &[u8], pattern: &[u8]) -> (found: Option<usize>)
    ensures
        match found {
            Some(at) => {
                &&& stands_at(bytes@, pattern@, at as int)
                &&& forall|before: int| 0 <= before < at ==> !stands_at(bytes@, pattern@, before)
            },
            None => forall|at: int| !stands_at(bytes@, pattern@, at),
        },
{
    if pattern.len() > bytes.len() {
        return None;
    }
    let last: usize = bytes.len() - pattern.len();
    let mut at: usize = 0;
    loop
        invariant
            last == bytes@.len() - pattern@.len(),
            at <= last,
            forall|before: int| 0 <= before < at ==> !stands_at(bytes@, pattern@, before),
        decreases last - at,
    {
        if standsAt(bytes, pattern, at) {
            return Some(at);
        }
        if at == last {
            return None;
        }
        at += 1;
    }
}

/// Cuts `text` at the leftmost `pattern`: what stands before it and what stands
/// after it. Both are parts of `text` itself; nothing is copied.
pub fn splitOnce<'a>(text: &'a str, pattern: &str) -> (halves: Option<(&'a str, &'a str)>)
    ensures
        match halves {
            Some((head, tail)) => split_once(text@, pattern@) == Some((head@, tail@)),
            None => split_once(text@, pattern@) is None,
        },
{
    let bytes = text.as_bytes();
    let sought = pattern.as_bytes();
    proof {
        encode_utf8_valid_utf8(text@);
        lemma_encode_len(pattern@);
    }
    if sought.len() == 0 {
        let (head, tail) = text.split_at(0);
        proof {
            assert(text@.subrange(0, pattern@.len() as int) =~= pattern@);
            lemma_first_occurrence_unique(text@, pattern@, 0);
            assert(tail.spec_bytes() =~= text.spec_bytes());
            lemma_encode_injective(tail@, text@);
            lemma_encode_len(head@);
            assert(head@ =~= text@.subrange(0, 0));
            assert(tail@ =~= text@.subrange(pattern@.len() as int, text@.len() as int));
        }
        return Some((head, tail));
    }
    match find(bytes, sought) {
        Some(at) => {
            proof {
                lemma_occurrence_in_text(text@, pattern@, at as int);
                lemma_first_in_text(text@, pattern@, at as int);
            }
            let (head, rest) = text.split_at(at);
            assert(rest.spec_bytes() =~= bytes@.subrange(at as int, bytes@.len() as int));
            let (_, tail) = rest.split_at(sought.len());
            proof {
                let end = bytes@.len() as int;
                assert(tail.spec_bytes() =~= bytes@.subrange(at + sought@.len(), end));
                lemma_encode_injective(head@, decode_utf8(bytes@.subrange(0, at as int)));
                lemma_encode_injective(
                    tail@,
                    decode_utf8(bytes@.subrange(at + sought@.len(), end)),
                );
            }
            Some((head, tail))
        },
        None => {
            proof {
                lemma_nowhere_in_text(text@, pattern@);
            }
            None
        },
    }
}

/// Cuts `text` at every `pattern`, from left to right.
pub fn splitAll<'a>(text: &'a str, pattern: &str) -> (pieces: Vec<&'a str>)
    ensures
        views(pieces@) == split_all(text@, pattern@),
{
    let mut pieces: Vec<&'a str> = Vec::new();
    if pattern.as_bytes().len() == 0 {
        proof {
            lemma_encode_len(pattern@);
        }
        pieces.push(text);
        assert(views(pieces@) =~= seq![text@]);
        return pieces;
    }
    let mut rest: &'a str = text;
    loop
        invariant
            pattern@.len() > 0,
            split_all(text@, pattern@) == views(pieces@) + split_all(rest@, pattern@),
        decreases rest@.len(),
    {
        let ghost before = views(pieces@);
        match splitOnce(rest, pattern) {
            None => {
                pieces.push(rest);
                assert(views(pieces@) =~= before + seq![rest@]);
                return pieces;
            },
            Some((head, tail)) => {
                proof {
                    lemma_first_occurrence(rest@, pattern@);
                }
                pieces.push(head);
                assert(views(pieces@) + split_all(tail@, pattern@) =~= before + (seq![head@]
                    + split_all(tail@, pattern@)));
                rest = tail;
            },
        }
    }
}

/// Takes `prefix` off the front of `text`. What is left is a part of `text`
/// itself; nothing is copied.
pub fn stripPrefix<'a>(text: &'a str, prefix: &str) -> (rest: Option<&'a str>)
    ensures
        match rest {
            Some(tail) => strip_prefix(text@, prefix@) == Some(tail@),
            None => strip_prefix(text@, prefix@) is None,
        },
{
    let bytes = text.as_bytes();
    let sought = prefix.as_bytes();
    proof {
        encode_utf8_valid_utf8(text@);
        lemma_encode_len(prefix@);
    }
    if sought.len() <= bytes.len() && standsAt(bytes, sought, 0) {
        proof {
            let end = bytes@.len() as int;
            assert(bytes@.subrange(0, end) =~= bytes@);
            if prefix@.len() > 0 {
                lemma_occurrence_in_text(text@, prefix@, 0);
                lemma_encode_len(decode_utf8(bytes@.subrange(0, 0)));
            }
        }
        let (head, tail) = text.split_at(sought.len());
        proof {
            let end = bytes@.len() as int;
            if prefix@.len() > 0 {
                lemma_encode_injective(tail@, decode_utf8(bytes@.subrange(sought@.len() as int, end)));
            } else {
                assert(tail.spec_bytes() =~= text.spec_bytes());
                lemma_encode_injective(tail@, text@);
            }
            assert(text@.subrange(0, prefix@.len() as int) =~= prefix@);
            assert(tail@ =~= text@.skip(prefix@.len() as int));
        }
        Some(tail)
    } else {
        proof {
            if starts_with(text@, prefix@) {
                lemma_occurrence_in_bytes(text@, prefix@, 0);
                assert(text@.subrange(0, 0) =~= Seq::<char>::empty());
            }
        }
        None
    }
}

/// Whether `text` begins with `prefix`.
pub fn startsWith(text: &str, prefix: &str) -> (found: bool)
    ensures
        found == starts_with(text@, prefix@),
{
    stripPrefix(text, prefix).is_some()
}

/// Whether `text` ends with `suffix`.
pub fn endsWith(text: &str, suffix: &str) -> (found: bool)
    ensures
        found == ends_with(text@, suffix@),
{
    let bytes = text.as_bytes();
    let sought = suffix.as_bytes();
    let found = sought.len() <= bytes.len() && standsAt(bytes, sought, bytes.len() - sought.len());
    proof {
        lemma_encode_len(suffix@);
        let at = text@.len() - suffix@.len();
        if found {
            if suffix@.len() > 0 {
                let start = bytes@.len() - sought@.len();
                lemma_occurrence_in_text(text@, suffix@, start);
                let head = decode_utf8(bytes@.subrange(0, start));
                let tail = decode_utf8(bytes@.subrange(bytes@.len() as int, bytes@.len() as int));
                lemma_encode_len(tail);
                assert(text@ =~= head + suffix@);
                assert(text@.subrange(at, at + suffix@.len()) =~= suffix@);
            } else {
                assert(text@.subrange(at, at + suffix@.len()) =~= suffix@);
            }
        } else if ends_with(text@, suffix@) {
            lemma_occurrence_in_bytes(text@, suffix@, at);
            let before = text@.subrange(0, at);
            assert(text@ =~= before + suffix@);
            lemma_encode_concat(before, suffix@);
        }
    }
    found
}

/// Whether the two slices hold the same text.
pub fn equal(left: &str, right: &str) -> (same: bool)
    ensures
        same == (left@ == right@),
{
    let a = left.as_bytes();
    let b = right.as_bytes();
    proof {
        vstd::utf8::encode_utf8_decode_utf8(left@);
        vstd::utf8::encode_utf8_decode_utf8(right@);
    }
    if a.len() != b.len() {
        return false;
    }
    let mut i: usize = 0;
    while i < a.len()
        invariant
            a@.len() == b@.len(),
            i <= a@.len(),
            a@ == encode_utf8(left@),
            b@ == encode_utf8(right@),
            forall|j: int| 0 <= j < i ==> a@[j] == b@[j],
        decreases a.len() - i,
    {
        if a[i] != b[i] {
            return false;
        }
        i += 1;
    }
    assert(a@ =~= b@);
    true
}

} // verus!
