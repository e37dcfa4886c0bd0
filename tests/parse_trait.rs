use cracked_md::parse_trait::{CharCursor, IndexedCharCursor, Parse};

#[test]
fn chars_parse_follows_double() {
    let c = CharCursor::new("abc");

    assert!(c.follows('a'));
    assert!(c.follows('a'));
}

#[test]
fn chars_parse_tokens() {
    let mut c = CharCursor::new("abcdef");

    assert!(c.parse_token('a'));
    assert!(c.parse_token('b'));
}

#[test]
fn chars_parse_str() {
    let mut c = CharCursor::new("abcdef");

    assert!(c.parse_str("abc"));
    assert!(c.parse_str("def"));
}

#[test]
fn enumerate_parse_follows_double() {
    let c = IndexedCharCursor::new("abc");

    assert!(c.follows('a'));
    assert!(c.follows('a'));
}

#[test]
fn enumerate_parse_tokens() {
    let mut c = IndexedCharCursor::new("abcdef");

    assert!(c.parse_token('a'));
    assert!(c.parse_token('b'));
}

#[test]
fn enumerate_parse_str() {
    let mut c = IndexedCharCursor::new("abcdef");

    assert!(c.parse_str("abc"));
    assert!(c.parse_str("def"));
}

#[test]
fn enumerate_parse_token_failed_not_consume() {
    let mut c = IndexedCharCursor::new("abc");

    assert!(!c.parse_token('b'));
    assert!(c.parse_token('a'));
}

#[test]
fn enumerate_parse_str_failed_not_consume() {
    let mut c = IndexedCharCursor::new("abcdef");

    assert!(!c.parse_str("def"));
    assert!(c.parse_str("abc"));
}

#[test]
fn enumerate_reports_indices() {
    let mut c = IndexedCharCursor::new("ab");

    assert_eq!(c.next_indexed(), Some((0, 'a')));
    assert_eq!(c.next_indexed(), Some((1, 'b')));
    assert_eq!(c.next_indexed(), None);
}

#[test]
fn chars_take_rest_after_token() {
    let mut c = CharCursor::new("## title");

    assert!(c.parse_token('#'));
    assert!(c.parse_str("# "));
    assert_eq!(c.take_rest(), "title");
    assert!(!c.follows('t'));
    assert_eq!(c.peek(), None);
}
