use std::collections::HashSet;

use petshop_server::headers::Headers;
use petshop_server::token::{cookie_value, find_cookie_value, random_string};

#[test]
fn random_string_test() {
    let output = random_string(32);
    assert_eq!(output.len(), 32);
}

#[test]
fn random_string_alphanumeric_test() {
    let output = random_string(256);
    assert_eq!(output.len(), 256);
    assert!(output.chars().all(|c| c.is_ascii_alphanumeric()));
}

#[test]
fn random_string_collision_test() {
    // ten thousand draws at length sixteen must not collide
    let mut seen: HashSet<String> = HashSet::new();
    for _ in 0..10_000 {
        seen.insert(random_string(16));
    }
    assert_eq!(seen.len(), 10_000);
}

#[test]
fn random_string_zero_length_test() {
    assert_eq!(random_string(0), "");
}

#[test]
fn cookie_round_trip_test() {
    let mut headers = Headers::new();
    headers.append("cookie", "name=value; other=1");
    assert_eq!(cookie_value(&headers, "name"), Some("value".to_string()));
    assert_eq!(cookie_value(&headers, "other"), Some("1".to_string()));
    assert_eq!(cookie_value(&headers, "missing"), None);
}

#[test]
fn cookie_value_case_insensitive_test() {
    let mut headers = Headers::new();
    headers.append("Cookie", "XSRF-TOKEN=abc123");
    assert_eq!(cookie_value(&headers, "xsrf-token"), Some("abc123".to_string()));
    assert_eq!(cookie_value(&headers, "XSRF-TOKEN"), Some("abc123".to_string()));
}

#[test]
fn cookie_value_no_cookie_header_test() {
    let headers = Headers::new();
    assert_eq!(cookie_value(&headers, "name"), None);
}

#[test]
fn find_cookie_value_syntax_test() {
    // pairs are delimited by whitespace and semicolons
    assert_eq!(find_cookie_value("a=1;b=2", "b"), Some("2".to_string()));
    assert_eq!(find_cookie_value("a=1; b=2", "a"), Some("1".to_string()));
    // the first match wins
    assert_eq!(find_cookie_value("a=1; a=2", "a"), Some("1".to_string()));
    // values come back verbatim
    assert_eq!(find_cookie_value("q=\"v\"", "q"), Some("\"v\"".to_string()));
    assert_eq!(find_cookie_value("a=", "a"), Some("".to_string()));
    // an empty name or a bare word is no pair
    assert_eq!(find_cookie_value("=v; a=1", ""), None);
    assert_eq!(find_cookie_value("justaword", "justaword"), None);
    assert_eq!(find_cookie_value("", "a"), None);
}
