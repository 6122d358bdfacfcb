use petshop_server::headers::Headers;

#[test]
fn headers_get_first_test() {
    let mut h = Headers::new();
    h.append("accept", "text/plain");
    h.append("accept", "text/html");
    assert_eq!(h.len(), 2);
    // the first value stored under a name wins
    assert_eq!(h.get("accept"), Some("text/plain".to_string()));
    assert_eq!(h.get("ACCEPT"), Some("text/plain".to_string()));
    assert_eq!(h.get("missing"), None);
}

#[test]
fn headers_remove_all_test() {
    let mut h = Headers::new();
    h.append("a", "1");
    h.append("b", "2");
    h.append("A", "3");
    // remove drops every pair under the name and returns the first
    assert_eq!(h.remove("a"), Some("1".to_string()));
    assert_eq!(h.len(), 1);
    assert_eq!(h.get("a"), None);
    assert_eq!(h.get("b"), Some("2".to_string()));
    assert_eq!(h.remove("a"), None);
}

#[test]
fn headers_insert_replaces_test() {
    let mut h = Headers::new();
    h.append("x-flag", "old");
    h.append("other", "kept");
    h.insert("X-Flag", "new");
    assert_eq!(h.len(), 2);
    assert_eq!(h.get("x-flag"), Some("new".to_string()));
    assert_eq!(h.get("other"), Some("kept".to_string()));
}

#[test]
fn headers_contains_test() {
    let mut h = Headers::new();
    assert!(!h.contains("a"));
    h.append("a", "1");
    assert!(h.contains("A"));
}

#[test]
fn headers_enumerate_test() {
    let mut h = Headers::new();
    h.append("a", "1");
    h.append("b", "2");
    assert_eq!(h.name_at(0), "a");
    assert_eq!(h.value_at(0), "1");
    assert_eq!(h.name_at(1), "b");
    assert_eq!(h.value_at(1), "2");
}
