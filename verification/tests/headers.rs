#![allow(non_snake_case)]

use vertex::headers::Headers;

fn owned(text: &str) -> String {
    String::from(text)
}

#[test]
fn new_headers_are_empty() {
    let headers = Headers::new();
    assert_eq!(headers.len(), 0);
    assert_eq!(headers.get("Host"), None);
    assert_eq!(headers, Headers::default());
}

#[test]
fn insert_adds_a_header() {
    let mut headers = Headers::new();
    assert_eq!(headers.insert(owned("Host"), owned("localhost")), None);
    assert_eq!(headers.len(), 1);
    assert_eq!(headers.get("Host"), Some(&owned("localhost")));
    assert_eq!(headers.entry(0), Some(("Host", "localhost")));
    assert_eq!(headers.entry(1), None);
}

#[test]
fn insert_overwrites_and_returns_the_old_value() {
    let mut headers = Headers::new();
    headers.insert(owned("Content-Type"), owned("text/plain"));
    headers.insert(owned("Content-Length"), owned("3"));
    let before = headers.insert(owned("Content-Type"), owned("application/octet-stream"));
    assert_eq!(before, Some(owned("text/plain")));
    assert_eq!(headers.len(), 2);
    assert_eq!(headers.entry(0), Some(("Content-Type", "application/octet-stream")));
    assert_eq!(headers.entry(1), Some(("Content-Length", "3")));
}

#[test]
fn header_names_are_case_sensitive() {
    let mut headers = Headers::new();
    headers.insert(owned("Host"), owned("a"));
    headers.insert(owned("host"), owned("b"));
    assert_eq!(headers.len(), 2);
    assert_eq!(headers.get("Host"), Some(&owned("a")));
    assert_eq!(headers.get("host"), Some(&owned("b")));
    assert_eq!(headers.get("HOST"), None);
}

#[test]
fn header_equality_ignores_order() {
    let mut left = Headers::new();
    left.insert(owned("A"), owned("1"));
    left.insert(owned("B"), owned("2"));
    let mut right = Headers::new();
    right.insert(owned("B"), owned("2"));
    right.insert(owned("A"), owned("1"));
    assert_eq!(left, right);
}

#[test]
fn header_equality_compares_names_and_values() {
    let mut left = Headers::new();
    left.insert(owned("A"), owned("1"));
    let mut other_value = Headers::new();
    other_value.insert(owned("A"), owned("2"));
    let mut other_name = Headers::new();
    other_name.insert(owned("B"), owned("1"));
    let mut longer = Headers::new();
    longer.insert(owned("A"), owned("1"));
    longer.insert(owned("B"), owned("2"));
    assert_ne!(left, other_value);
    assert_ne!(left, other_name);
    assert_ne!(left, longer);
    assert_ne!(longer, left);
    assert_ne!(left, Headers::new());
}
