use ws_server::error::WsError;
use ws_server::handshake::{accept_key, extract_key, negotiate, response_with};

#[test]
fn accept_key_matches_the_protocol_test_vector() {
    let accept = accept_key(b"dGhlIHNhbXBsZSBub25jZQ==");
    assert_eq!(accept, b"s3pPLMBiTxaQ9kYGzzhZRbK+xOo=".to_vec());
}

#[test]
fn accept_key_depends_on_the_key() {
    let a = accept_key(b"dGhlIHNhbXBsZSBub25jZQ==");
    let b = accept_key(b"x3JJHMbDL1EzLkh9GBhXDw==");
    assert_eq!(b, b"HSmrc0sMlYUkAGmm5OPpG2HaGWk=".to_vec());
    assert_ne!(a, b);
}

#[test]
fn negotiate_builds_the_literal_response() {
    let request = b"GET /chat HTTP/1.1\r\nHost: example.com\r\nUpgrade: websocket\r\nConnection: Upgrade\r\nSec-WebSocket-Key: dGhlIHNhbXBsZSBub25jZQ==\r\nSec-WebSocket-Version: 13\r\n\r\n";
    let response = negotiate(request);
    let expected = b"HTTP/1.1 101 Switching Protocols\r\nUpgrade: websocket\r\nConnection: Upgrade\r\nSec-WebSocket-Accept: s3pPLMBiTxaQ9kYGzzhZRbK+xOo=\r\n\r\n".to_vec();
    assert_eq!(response, Ok(Some(expected)));
}

#[test]
fn negotiate_ignores_requests_without_the_marker() {
    assert_eq!(negotiate(b"GET / HTTP/1.1\r\nHost: example.com\r\n\r\n"), Ok(None));
    assert_eq!(negotiate(b""), Ok(None));
}

#[test]
fn negotiate_marker_is_case_sensitive() {
    let request = b"GET / HTTP/1.1\r\nupgrade: websocket\r\nSec-WebSocket-Key: abc\r\n\r\n";
    assert_eq!(negotiate(request), Ok(None));
}

#[test]
fn negotiate_reports_a_missing_key() {
    let request = b"GET / HTTP/1.1\r\nUpgrade: websocket\r\n\r\n";
    assert_eq!(negotiate(request), Err(WsError::MissingKey));
}

#[test]
fn negotiate_reports_an_unterminated_key() {
    let request = b"GET / HTTP/1.1\r\nUpgrade: websocket\r\nSec-WebSocket-Key: abc";
    assert_eq!(negotiate(request), Err(WsError::InvalidUpgradeRequest));
}

#[test]
fn extract_key_takes_the_text_up_to_the_line_break() {
    let request = b"Sec-WebSocket-Key: first\r\nSec-WebSocket-Key: second\r\n";
    assert_eq!(extract_key(request), Ok(b"first".to_vec()));
    assert_eq!(extract_key(b"Sec-WebSocket-Key: \r\n"), Ok(Vec::new()));
}

#[test]
fn accept_key_has_28_bytes() {
    assert_eq!(accept_key(b"").len(), 28);
    assert_eq!(accept_key(b"dGhlIHNhbXBsZSBub25jZQ==").len(), 28);
    assert_eq!(accept_key(&[0xFFu8; 300]).len(), 28);
    assert_eq!(accept_key(b""), b"Kfh9QIsMVZcl6xEPYxPHzW8SZ8w=".to_vec());
}

#[test]
fn response_with_wraps_the_accept_value() {
    assert_eq!(
        response_with(b"abc"),
        b"HTTP/1.1 101 Switching Protocols\r\nUpgrade: websocket\r\nConnection: Upgrade\r\nSec-WebSocket-Accept: abc\r\n\r\n".to_vec()
    );
    assert_eq!(
        response_with(b""),
        b"HTTP/1.1 101 Switching Protocols\r\nUpgrade: websocket\r\nConnection: Upgrade\r\nSec-WebSocket-Accept: \r\n\r\n".to_vec()
    );
}
