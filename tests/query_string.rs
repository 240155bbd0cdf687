use http_server::{QueryString, Value};

fn single(s: &str) -> Value {
    Value::Single(s.to_string())
}

fn multiple(v: &[&str]) -> Value {
    Value::Multiple(v.iter().map(|s| s.to_string()).collect())
}

#[test]
fn decodes_mixed_fragment() {
    let q = QueryString::parse("a=1&b=2&c&d&e===&d=abc");
    assert_eq!(q.get("a"), Some(&single("1")));
    assert_eq!(q.get("b"), Some(&single("2")));
    assert_eq!(q.get("c"), Some(&single("")));
    assert_eq!(q.get("d"), Some(&multiple(&["", "abc"])));
    assert_eq!(q.get("e"), Some(&single("==")));
    assert_eq!(q.get("f"), None);
}

#[test]
fn unique_keys_give_single_values() {
    let q = QueryString::parse("x=10&y&z=a=b");
    assert_eq!(q.get("x"), Some(&single("10")));
    assert_eq!(q.get("y"), Some(&single("")));
    assert_eq!(q.get("z"), Some(&single("a=b")));
}

#[test]
fn repeated_key_keeps_order() {
    let q = QueryString::parse("k=first&other=1&k=second");
    assert_eq!(q.get("k"), Some(&multiple(&["first", "second"])));
    assert_eq!(q.get("other"), Some(&single("1")));
}

#[test]
fn third_occurrence_appends() {
    let q = QueryString::parse("k=1&k=2&k=3");
    assert_eq!(q.get("k"), Some(&multiple(&["1", "2", "3"])));
}

#[test]
fn empty_fragment_is_empty_key() {
    let q = QueryString::parse("a=1&&b=2");
    assert_eq!(q.get(""), Some(&single("")));
    assert_eq!(q.get("a"), Some(&single("1")));
    assert_eq!(q.get("b"), Some(&single("2")));
}

#[test]
fn empty_query_has_one_empty_key() {
    let q = QueryString::parse("");
    assert_eq!(q.get(""), Some(&single("")));
    assert_eq!(q.get("a"), None);
}

#[test]
fn no_percent_decoding() {
    let q = QueryString::parse("name=a%20b&ü=ß");
    assert_eq!(q.get("name"), Some(&single("a%20b")));
    assert_eq!(q.get("ü"), Some(&single("ß")));
}
