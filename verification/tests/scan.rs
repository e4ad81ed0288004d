use ws_server::scan::{find, has_prefix, has_suffix, matches_at, same_bytes};

#[test]
fn find_returns_the_first_occurrence() {
    assert_eq!(find(b"abcabc", b"bc"), Some(1));
    assert_eq!(find(b"abcabc", b"abc"), Some(0));
    assert_eq!(find(b"aaab", b"ab"), Some(2));
    assert_eq!(find(b"abc", b"c"), Some(2));
    assert_eq!(find(b"abc", b"abc"), Some(0));
}

#[test]
fn find_of_nothing_is_at_the_start() {
    assert_eq!(find(b"abc", b""), Some(0));
    assert_eq!(find(b"", b""), Some(0));
}

#[test]
fn find_reports_absence() {
    assert_eq!(find(b"abc", b"d"), None);
    assert_eq!(find(b"abc", b"abcd"), None);
    assert_eq!(find(b"", b"a"), None);
    assert_eq!(find(b"ab", b"ba"), None);
}

#[test]
fn matches_at_checks_bounds() {
    assert!(matches_at(b"hello", b"llo", 2));
    assert!(!matches_at(b"hello", b"llo", 3));
    assert!(!matches_at(b"hello", b"lo", 4));
    assert!(matches_at(b"hello", b"", 5));
    assert!(!matches_at(b"hello", b"", 6));
    assert!(!matches_at(b"hello", b"h", usize::MAX));
}

#[test]
fn prefix_and_suffix() {
    assert!(has_prefix(b"GET / HTTP/1.1", b"GET "));
    assert!(!has_prefix(b" GET /", b"GET "));
    assert!(!has_prefix(b"GE", b"GET "));
    assert!(has_prefix(b"", b""));
    assert!(has_suffix(b"/index.html", b".html"));
    assert!(!has_suffix(b"/index.htm", b".html"));
    assert!(!has_suffix(b"ml", b".html"));
    assert!(has_suffix(b"abc", b""));
}

#[test]
fn same_bytes_compares_whole_strings() {
    assert!(same_bytes(b"/", b"/"));
    assert!(!same_bytes(b"/", b"//"));
    assert!(!same_bytes(b"//", b"/"));
    assert!(!same_bytes(b"a", b"b"));
    assert!(same_bytes(b"", b""));
}
