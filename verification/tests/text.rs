#![allow(non_snake_case)]

use vertex::decimal::{decimalText, parseDecimal, writeDecimal};
use vertex::text::{endsWith, equal, splitAll, splitOnce, startsWith};

#[test]
fn split_once_cuts_at_the_leftmost_pattern() {
    assert_eq!(splitOnce("Host: a: b", ": "), Some(("Host", "a: b")));
    assert_eq!(splitOnce(": ", ": "), Some(("", "")));
    assert_eq!(splitOnce("a:: b", ": "), Some(("a:", "b")));
}

#[test]
fn split_once_without_the_pattern_is_none() {
    assert_eq!(splitOnce("Host:localhost", ": "), None);
    assert_eq!(splitOnce("", ": "), None);
    assert_eq!(splitOnce(":", ": "), None);
}

#[test]
fn split_once_with_an_empty_pattern_cuts_at_the_start() {
    assert_eq!(splitOnce("abc", ""), Some(("", "abc")));
}

#[test]
fn split_all_keeps_empty_pieces() {
    assert_eq!(splitAll("a\r\n\r\n", "\r\n"), vec!["a", "", ""]);
    assert_eq!(splitAll("\r\n", "\r\n"), vec!["", ""]);
    assert_eq!(splitAll("", "\r\n"), vec![""]);
    assert_eq!(splitAll("a  b", " "), vec!["a", "", "b"]);
}

#[test]
fn split_all_takes_the_leftmost_match() {
    assert_eq!(splitAll("\r\r\n\n", "\r\n"), vec!["\r", "\n"]);
    assert_eq!(splitAll("a, b,c, d", ", "), vec!["a", "b,c", "d"]);
}

#[test]
fn split_all_with_an_empty_pattern_cuts_nowhere() {
    assert_eq!(splitAll("abc", ""), vec!["abc"]);
}

#[test]
fn split_counts_characters_not_bytes() {
    assert_eq!(splitAll("é, ü, gzip", ", "), vec!["é", "ü", "gzip"]);
    assert_eq!(splitOnce("naïve: café", ": "), Some(("naïve", "café")));
}

#[test]
fn split_with_a_pattern_of_many_bytes() {
    assert_eq!(splitAll("a→b→→c", "→"), vec!["a", "b", "", "c"]);
    assert_eq!(splitOnce("été", "é"), Some(("", "té")));
    assert_eq!(splitOnce("日本語", "本"), Some(("日", "語")));
    assert!(startsWith("日本語", "日本"));
    assert!(endsWith("日本語", "本語"));
    assert!(!endsWith("日本語", "日本"));
}

#[test]
fn starts_with_and_ends_with() {
    assert!(startsWith("http://x", "http://"));
    assert!(!startsWith("http:/", "http://"));
    assert!(startsWith("abc", ""));
    assert!(endsWith("a\r\n\r\n", "\r\n\r\n"));
    assert!(!endsWith("a\r\n", "\r\n\r\n"));
    assert!(!endsWith("\r\n\r", "\r\n\r\n"));
    assert!(endsWith("é\r\n\r\n", "\r\n\r\n"));
    assert!(endsWith("abc", ""));
}

#[test]
fn equal_compares_the_whole_text() {
    assert!(equal("gzip", "gzip"));
    assert!(!equal("gzip", "gzi"));
    assert!(!equal("gzip", "Gzip"));
    assert!(equal("", ""));
    assert!(equal("é", "é"));
}

#[test]
fn decimal_text_has_no_leading_zeros() {
    assert_eq!(decimalText(0), "0");
    assert_eq!(decimalText(7), "7");
    assert_eq!(decimalText(10), "10");
    assert_eq!(decimalText(4221), "4221");
    assert_eq!(decimalText(1234567890), "1234567890");
    assert_eq!(decimalText(usize::MAX), usize::MAX.to_string());
}

#[test]
fn write_decimal_appends() {
    let mut out = String::from("Content-Length: ");
    writeDecimal(305, &mut out);
    assert_eq!(out, "Content-Length: 305");
}

#[test]
fn parse_decimal_reads_digits_with_an_optional_plus() {
    assert_eq!(parseDecimal("0"), Some(0));
    assert_eq!(parseDecimal("42"), Some(42));
    assert_eq!(parseDecimal("+5"), Some(5));
    assert_eq!(parseDecimal("007"), Some(7));
    assert_eq!(parseDecimal(&usize::MAX.to_string()), Some(usize::MAX));
}

#[test]
fn parse_decimal_refuses_what_is_no_number() {
    assert_eq!(parseDecimal(""), None);
    assert_eq!(parseDecimal("+"), None);
    assert_eq!(parseDecimal("-1"), None);
    assert_eq!(parseDecimal("12a"), None);
    assert_eq!(parseDecimal(" 1"), None);
    assert_eq!(parseDecimal("1 "), None);
    assert_eq!(parseDecimal("++1"), None);
    assert_eq!(parseDecimal("1_000"), None);
    assert_eq!(parseDecimal("٣"), None);
}

#[test]
fn parse_decimal_refuses_what_does_not_fit() {
    assert_eq!(parseDecimal("340282366920938463463374607431768211456"), None);
    let mut above = usize::MAX.to_string();
    above.push('0');
    assert_eq!(parseDecimal(&above), None);
}

#[test]
fn parse_decimal_agrees_with_the_standard_parser() {
    for text in ["0", "+0", "18446744073709551615", "18446744073709551616", "4294967296", "", "+", "1e3"] {
        assert_eq!(parseDecimal(text), text.parse::<usize>().ok());
    }
}

#[test]
fn decimal_text_reads_back() {
    for value in [0usize, 1, 9, 10, 99, 100, 65535, usize::MAX] {
        assert_eq!(parseDecimal(&decimalText(value)), Some(value));
    }
}

#[test]
fn split_all_agrees_with_the_standard_split() {
    let texts = [
        "", "a", "\r\n", "a\r\nb", "a\r\n\r\nb\r\n", "\r\r\n\n", "\n\r\n\r", "GET / HTTP/1.1\r\nHost: x\r\n\r\n",
        "a, b, c", ", ", ", , ", "a,b", "é, ü", "  ", " a b ", ": ", "a: b: c", "::  ",
    ];
    for text in texts {
        for pattern in ["\r\n", ", ", " ", ": ", "é", "\r\n\r\n"] {
            let expected: Vec<&str> = text.split(pattern).collect();
            assert_eq!(splitAll(text, pattern), expected);
            assert_eq!(splitOnce(text, pattern), text.split_once(pattern));
            assert_eq!(startsWith(text, pattern), text.starts_with(pattern));
            assert_eq!(endsWith(text, pattern), text.ends_with(pattern));
            assert_eq!(equal(text, pattern), text == pattern);
        }
    }
}
