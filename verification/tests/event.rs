use ws_server::error::WsError;
use ws_server::event::{EventQueue, WebSocketEvent};

#[test]
fn queue_is_first_in_first_out() {
    let mut q = EventQueue::new();
    assert!(q.is_empty());
    assert_eq!(q.pop(), None);
    q.push(WebSocketEvent::Connected(1));
    q.push(WebSocketEvent::Message { client_id: 1, text: "a".to_string() });
    q.push(WebSocketEvent::Error("oops".to_string()));
    q.push(WebSocketEvent::Shutdown);
    assert_eq!(q.len(), 4);
    assert!(!q.is_empty());
    assert_eq!(q.pop(), Some(WebSocketEvent::Connected(1)));
    assert_eq!(q.pop(), Some(WebSocketEvent::Message { client_id: 1, text: "a".to_string() }));
    q.push(WebSocketEvent::Disconnected(1));
    assert_eq!(q.pop(), Some(WebSocketEvent::Error("oops".to_string())));
    assert_eq!(q.pop(), Some(WebSocketEvent::Shutdown));
    assert_eq!(q.pop(), Some(WebSocketEvent::Disconnected(1)));
    assert_eq!(q.pop(), None);
    assert_eq!(q.len(), 0);
}

#[test]
fn every_error_kind_has_its_text() {
    assert_eq!(WsError::AlreadyRunning.message(), "Server already running");
    assert_eq!(WsError::BindFailed.message(), "Failed to bind");
    assert_eq!(WsError::SetNonBlockingFailed.message(), "Failed to set nonblocking");
    assert_eq!(WsError::NotFound.message(), "Client not found");
    assert_eq!(WsError::ConnectionClosed.message(), "Connection closed");
    assert_eq!(WsError::WriteFailed.message(), "Write error");
    assert_eq!(WsError::ReadFailed.message(), "Read error");
    assert_eq!(WsError::PayloadTooLarge.message(), "Payload too large");
    assert_eq!(WsError::UnsupportedOpcode.message(), "Unsupported opcode");
    assert_eq!(WsError::MissingKey.message(), "No Sec-WebSocket-Key found");
    assert_eq!(WsError::InvalidUpgradeRequest.message(), "Invalid key format");
}
