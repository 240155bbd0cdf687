use http_server::text::{chars_of, find_char, get_next_word, same_chars, split_text};

#[test]
fn next_word_at_space_or_cr() {
    assert_eq!(get_next_word("GET /x HTTP/1.1"), Some(("GET", "/x HTTP/1.1")));
    assert_eq!(get_next_word("HTTP/1.1\r\nHost"), Some(("HTTP/1.1", "\nHost")));
    assert_eq!(get_next_word("é b"), Some(("é", "b")));
    assert_eq!(get_next_word("nodelimiter\n"), None);
}

#[test]
fn split_and_find() {
    assert_eq!(split_text("a&&b", '&'), vec!["a".to_string(), String::new(), "b".to_string()]);
    assert_eq!(split_text("", '&'), vec![String::new()]);
    assert_eq!(find_char("ab=c=d", '='), Some(2));
    assert_eq!(find_char("abc", '='), None);
    assert_eq!(chars_of("hé"), vec!['h', 'é']);
    assert!(same_chars(&['a', 'b'], &['a', 'b']));
    assert!(!same_chars(&['a'], &['a', 'b']));
}
