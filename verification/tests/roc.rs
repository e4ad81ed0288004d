use ws_server::roc::{create_roc_str, RocStr};

#[test]
fn empty_holds_no_bytes() {
    let s = RocStr::empty();
    assert_eq!(s.as_slice(), b"");
    assert_eq!(s.to_string(), "");
}

#[test]
fn init_copies_the_bytes() {
    let s = RocStr::init(b"hello");
    assert_eq!(s.as_slice(), b"hello");
    assert_eq!(s.to_string(), "hello");
    assert_eq!(RocStr::init(b"").as_slice(), b"");
}

#[test]
fn to_string_replaces_malformed_bytes() {
    let s = RocStr::init(&[b'a', 0xC3, b'b']);
    assert_eq!(s.to_string(), "a\u{FFFD}b");
    assert_eq!(s.as_slice(), &[b'a', 0xC3, b'b']);
}

#[test]
fn create_roc_str_round_trips_text() {
    let text = "{\"type\":\"message\",\"text\":\"gr\u{fc}\u{df}e\"}";
    let s = create_roc_str(text);
    assert_eq!(s.as_slice(), text.as_bytes());
    assert_eq!(s.to_string(), text);
}
