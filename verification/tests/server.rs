use ws_server::error::WsError;
use ws_server::event::WebSocketEvent;
use ws_server::frame::{encode_frame, encode_masked_frame, WebSocketFrame, WebSocketOpcode};
use ws_server::registry::Connection;
use ws_server::server::{
    classify_request, BindOutcome, Broadcast, PollAction, ReadOutcome, RequestAction,
    WebSocketServer,
};

const UPGRADE: &[u8] = b"GET /chat HTTP/1.1\r\nHost: example.com\r\nUpgrade: websocket\r\nConnection: Upgrade\r\nSec-WebSocket-Key: dGhlIHNhbXBsZSBub25jZQ==\r\n\r\n";

fn connect(server: &mut WebSocketServer) -> u64 {
    let id = server.open_connection().unwrap();
    assert!(matches!(server.handle_request(id, UPGRADE), RequestAction::Upgrade(_)));
    assert!(server.complete_upgrade(id, true));
    id
}

fn text(message: &str) -> ReadOutcome {
    ReadOutcome::Data(encode_masked_frame(WebSocketOpcode::Text, message.as_bytes(), &[1, 2, 3, 4]))
}

fn close() -> ReadOutcome {
    ReadOutcome::Data(encode_masked_frame(WebSocketOpcode::Close, &[], &[1, 2, 3, 4]))
}

fn message(client_id: u64, text: &str) -> WebSocketEvent {
    WebSocketEvent::Message { client_id, text: text.to_string() }
}

#[test]
fn new_server_is_idle() {
    let mut server = WebSocketServer::new();
    assert!(!server.is_listening());
    assert_eq!(server.connection_count(), 0);
    assert_eq!(server.pending_events(), 0);
    assert_eq!(server.accept(), None);
    assert_eq!(server.poll_targets(), Vec::<u64>::new());
}

#[test]
fn listen_twice_is_already_running() {
    let mut server = WebSocketServer::new();
    assert_eq!(server.listen(BindOutcome::Bound), Ok(()));
    assert!(server.is_listening());
    assert_eq!(server.listen(BindOutcome::Bound), Err(WsError::AlreadyRunning));
    assert_eq!(server.listen(BindOutcome::BindFailed), Err(WsError::AlreadyRunning));
    assert!(server.is_listening());
}

#[test]
fn listen_reports_bind_failures() {
    let mut server = WebSocketServer::new();
    assert_eq!(server.listen(BindOutcome::BindFailed), Err(WsError::BindFailed));
    assert!(!server.is_listening());
    assert_eq!(
        server.listen(BindOutcome::SetNonBlockingFailed),
        Err(WsError::SetNonBlockingFailed)
    );
    assert!(!server.is_listening());
    assert_eq!(server.listen(BindOutcome::Bound), Ok(()));
}

#[test]
fn identifiers_count_up_from_one() {
    let mut server = WebSocketServer::new();
    assert_eq!(server.open_connection(), Some(1));
    assert_eq!(server.open_connection(), Some(2));
    assert!(server.is_upgrading(1));
    assert!(server.is_upgrading(2));
    assert!(!server.is_upgrading(3));
    assert_eq!(server.handle_request(1, b"nonsense"), RequestAction::Drop);
    assert!(!server.is_upgrading(1));
    // A forgotten identifier is not given out again.
    assert_eq!(server.open_connection(), Some(3));
}

#[test]
fn upgrade_registers_and_queues_connected() {
    let mut server = WebSocketServer::new();
    let id = server.open_connection().unwrap();
    let action = server.handle_request(id, UPGRADE);
    let expected = b"HTTP/1.1 101 Switching Protocols\r\nUpgrade: websocket\r\nConnection: Upgrade\r\nSec-WebSocket-Accept: s3pPLMBiTxaQ9kYGzzhZRbK+xOo=\r\n\r\n".to_vec();
    assert_eq!(action, RequestAction::Upgrade(expected));
    assert!(server.is_upgrading(id));
    assert!(server.is_negotiated(id));
    assert_eq!(server.connection(id), None);
    assert!(server.complete_upgrade(id, true));
    assert!(!server.is_negotiated(id));
    assert!(!server.is_upgrading(id));
    assert_eq!(
        server.connection(id),
        Some(Connection { id, is_websocket: true, is_closed: false })
    );
    assert_eq!(server.accept(), Some(WebSocketEvent::Connected(id)));
    assert_eq!(server.accept(), None);
}

#[test]
fn failed_upgrade_write_is_a_silent_drop() {
    let mut server = WebSocketServer::new();
    let id = server.open_connection().unwrap();
    assert!(matches!(server.handle_request(id, UPGRADE), RequestAction::Upgrade(_)));
    assert!(!server.complete_upgrade(id, false));
    assert!(!server.is_upgrading(id));
    assert_eq!(server.connection(id), None);
    assert_eq!(server.accept(), None);
    // The handshake is over: a second completion registers nothing.
    assert!(!server.complete_upgrade(id, true));
    assert_eq!(server.connection_count(), 0);
}

#[test]
fn upgrade_of_an_unknown_connection_is_refused() {
    let mut server = WebSocketServer::new();
    assert_eq!(server.handle_request(7, UPGRADE), RequestAction::Drop);
    assert!(!server.complete_upgrade(7, true));
    assert_eq!(server.connection_count(), 0);
    assert_eq!(server.pending_events(), 0);
}

#[test]
fn bad_upgrade_request_is_a_silent_drop() {
    let mut server = WebSocketServer::new();
    let id = server.open_connection().unwrap();
    let request = b"GET / HTTP/1.1\r\nUpgrade: websocket\r\n\r\n";
    assert_eq!(server.handle_request(id, request), RequestAction::Drop);
    assert!(!server.is_upgrading(id));
    assert_eq!(server.accept(), None);
}

#[test]
fn plain_get_is_served_as_a_file() {
    let mut server = WebSocketServer::new();
    let id = server.open_connection().unwrap();
    let action = server.handle_request(id, b"GET /app.js HTTP/1.1\r\nHost: x\r\n\r\n");
    assert_eq!(action, RequestAction::ServeFile(b"/app.js".to_vec()));
    assert!(!server.is_upgrading(id));
    assert_eq!(server.connection_count(), 0);
    assert_eq!(server.accept(), None);
}

#[test]
fn classify_request_tells_the_three_kinds_apart() {
    assert!(matches!(classify_request(UPGRADE), RequestAction::Upgrade(_)));
    assert_eq!(
        classify_request(b"GET / HTTP/1.1\r\n\r\n"),
        RequestAction::ServeFile(b"/index.html".to_vec())
    );
    assert_eq!(classify_request(b"POST / HTTP/1.1\r\n\r\n"), RequestAction::Drop);
    assert_eq!(classify_request(b" GET / HTTP/1.1\r\n\r\n"), RequestAction::Drop);
    assert_eq!(classify_request(b"GET /nothing-after"), RequestAction::Drop);
    assert_eq!(classify_request(b""), RequestAction::Drop);
    // The upgrade marker wins over the method.
    assert_eq!(
        classify_request(b"POST / HTTP/1.1\r\nUpgrade: websocket\r\n\r\n"),
        RequestAction::Drop
    );
}

#[test]
fn classify_request_reads_the_request_as_lossy_text() {
    let mut request = b"GET / HTTP/1.1\r\nUpgrade: websocket\r\nSec-WebSocket-Key: ".to_vec();
    request.push(0xFF);
    request.extend_from_slice(b"\r\n\r\n");
    let mut replaced = b"GET / HTTP/1.1\r\nUpgrade: websocket\r\nSec-WebSocket-Key: ".to_vec();
    replaced.extend_from_slice("\u{FFFD}".as_bytes());
    replaced.extend_from_slice(b"\r\n\r\n");
    assert_eq!(classify_request(&request), classify_request(&replaced));
    let key_of_replaced = ws_server::handshake::extract_key(&replaced).unwrap();
    assert_eq!(key_of_replaced, "\u{FFFD}".as_bytes().to_vec());
}

#[test]
fn events_keep_the_order_of_the_frames() {
    let mut server = WebSocketServer::new();
    let id = connect(&mut server);
    assert_eq!(server.accept(), Some(WebSocketEvent::Connected(id)));
    assert_eq!(server.on_read(id, text("M1")), PollAction::Nothing);
    assert_eq!(server.on_read(id, text("M2")), PollAction::Nothing);
    assert_eq!(
        server.on_read(id, close()),
        PollAction::Close(encode_frame(WebSocketOpcode::Close, &[]))
    );
    assert_eq!(server.pending_events(), 3);
    assert_eq!(server.accept(), Some(message(id, "M1")));
    assert_eq!(server.accept(), Some(message(id, "M2")));
    assert_eq!(server.accept(), Some(WebSocketEvent::Disconnected(id)));
    assert_eq!(server.accept(), None);
}

#[test]
fn events_of_two_connections_are_queued_as_they_arrive() {
    let mut server = WebSocketServer::new();
    let a = connect(&mut server);
    let b = connect(&mut server);
    server.on_read(a, text("a1"));
    server.on_read(b, text("b1"));
    server.on_read(a, text("a2"));
    server.on_read(b, close());
    let mut seen = Vec::new();
    while let Some(event) = server.accept() {
        seen.push(event);
    }
    assert_eq!(
        seen,
        vec![
            WebSocketEvent::Connected(a),
            WebSocketEvent::Connected(b),
            message(a, "a1"),
            message(b, "b1"),
            message(a, "a2"),
            WebSocketEvent::Disconnected(b),
        ]
    );
}

#[test]
fn no_message_follows_a_disconnection() {
    let mut server = WebSocketServer::new();
    let id = connect(&mut server);
    server.on_read(id, close());
    // The connection is marked closed: further frames are not looked at.
    assert_eq!(server.on_read(id, text("late")), PollAction::Nothing);
    assert_eq!(server.on_read(id, close()), PollAction::Nothing);
    assert_eq!(server.accept(), Some(WebSocketEvent::Connected(id)));
    assert_eq!(server.accept(), Some(WebSocketEvent::Disconnected(id)));
    assert_eq!(server.accept(), None);
    assert_eq!(server.sweep(), vec![id]);
    assert_eq!(server.on_read(id, text("later")), PollAction::Nothing);
    assert_eq!(server.accept(), None);
}

#[test]
fn ping_is_answered_with_an_empty_pong() {
    let mut server = WebSocketServer::new();
    let id = connect(&mut server);
    let ping = ReadOutcome::Data(encode_masked_frame(WebSocketOpcode::Ping, b"xyz", &[1, 2, 3, 4]));
    assert_eq!(server.on_read(id, ping), PollAction::Reply(vec![0x8A, 0x00]));
    assert_eq!(server.pending_events(), 1);
    assert_eq!(
        server.connection(id),
        Some(Connection { id, is_websocket: true, is_closed: false })
    );
}

#[test]
fn pong_and_no_data_change_nothing() {
    let mut server = WebSocketServer::new();
    let id = connect(&mut server);
    let pong = ReadOutcome::Data(encode_masked_frame(WebSocketOpcode::Pong, b"xyz", &[1, 2, 3, 4]));
    assert_eq!(server.on_read(id, pong), PollAction::Nothing);
    assert_eq!(server.on_read(id, ReadOutcome::WouldBlock), PollAction::Nothing);
    assert_eq!(server.on_read(id, ReadOutcome::Data(Vec::new())), PollAction::Nothing);
    assert_eq!(server.on_frame(id, Ok(None)), PollAction::Nothing);
    assert_eq!(server.on_frame(id, Ok(Some(WebSocketFrame::Pong(Vec::new())))), PollAction::Nothing);
    assert_eq!(server.pending_events(), 1);
    assert_eq!(server.poll_targets(), vec![id]);
}

#[test]
fn read_failure_disconnects() {
    let mut server = WebSocketServer::new();
    let id = connect(&mut server);
    assert_eq!(server.on_read(id, ReadOutcome::Failed), PollAction::Close(vec![0x88, 0x00]));
    assert_eq!(
        server.connection(id),
        Some(Connection { id, is_websocket: true, is_closed: true })
    );
    assert_eq!(server.accept(), Some(WebSocketEvent::Connected(id)));
    assert_eq!(server.accept(), Some(WebSocketEvent::Disconnected(id)));
}

#[test]
fn decode_errors_disconnect() {
    let mut server = WebSocketServer::new();
    let a = connect(&mut server);
    let b = connect(&mut server);
    let c = connect(&mut server);
    let binary = encode_masked_frame(WebSocketOpcode::Binary, b"x", &[1, 2, 3, 4]);
    let too_large = vec![0x81u8, 0xFF, 0, 0, 0, 0, 0, 1, 0, 1, 0, 0, 0, 0];
    let cut_short = vec![0x81u8, 0x85, 1, 2, 3, 4, b'a'];
    assert!(matches!(server.on_read(a, ReadOutcome::Data(binary)), PollAction::Close(_)));
    assert!(matches!(server.on_read(b, ReadOutcome::Data(too_large)), PollAction::Close(_)));
    assert!(matches!(server.on_read(c, ReadOutcome::Data(cut_short)), PollAction::Close(_)));
    assert_eq!(server.on_frame(a, Err(WsError::UnsupportedOpcode)), PollAction::Nothing);
    let mut removed = server.sweep();
    removed.sort();
    assert_eq!(removed, vec![a, b, c]);
    assert_eq!(server.connection_count(), 0);
    assert_eq!(server.pending_events(), 6);
}

#[test]
fn sweep_removes_only_closed_connections() {
    let mut server = WebSocketServer::new();
    let a = connect(&mut server);
    let b = connect(&mut server);
    let c = connect(&mut server);
    server.on_read(b, close());
    assert_eq!(server.connection_count(), 3);
    let mut targets = server.poll_targets();
    targets.sort();
    assert_eq!(targets, vec![a, c]);
    assert_eq!(server.sweep(), vec![b]);
    assert_eq!(server.connection_count(), 2);
    assert_eq!(server.connection(b), None);
    assert_eq!(server.connection(a), Some(Connection { id: a, is_websocket: true, is_closed: false }));
    assert_eq!(server.connection(c), Some(Connection { id: c, is_websocket: true, is_closed: false }));
    assert_eq!(server.sweep(), Vec::<u64>::new());
}

#[test]
fn send_to_an_unknown_id_is_not_found() {
    let mut server = WebSocketServer::new();
    assert_eq!(server.send(42, "x"), Err(WsError::NotFound));
    let id = connect(&mut server);
    assert_eq!(server.send(id + 1, "x"), Err(WsError::NotFound));
    assert_eq!(server.send(0, "x"), Err(WsError::NotFound));
    // A connection in its handshake is not registered yet.
    let pending = server.open_connection().unwrap();
    assert_eq!(server.send(pending, "x"), Err(WsError::NotFound));
}

#[test]
fn send_encodes_a_text_frame() {
    let mut server = WebSocketServer::new();
    let id = connect(&mut server);
    assert_eq!(server.send(id, "Hello"), Ok(vec![0x81, 0x05, 0x48, 0x65, 0x6c, 0x6c, 0x6f]));
    assert_eq!(server.send(id, ""), Ok(vec![0x81, 0x00]));
    assert_eq!(server.send(id, "\u{e9}"), Ok(vec![0x81, 0x02, 0xC3, 0xA9]));
}

#[test]
fn send_to_a_closed_connection_is_refused() {
    let mut server = WebSocketServer::new();
    let id = connect(&mut server);
    server.on_read(id, close());
    assert_eq!(server.send(id, "x"), Err(WsError::ConnectionClosed));
    server.sweep();
    assert_eq!(server.send(id, "x"), Err(WsError::NotFound));
}

#[test]
fn failed_send_does_not_close_the_connection() {
    let mut server = WebSocketServer::new();
    let id = connect(&mut server);
    assert!(server.send(id, "x").is_ok());
    assert_eq!(server.send_written(false), Err(WsError::WriteFailed));
    assert_eq!(server.send_written(true), Ok(()));
    assert_eq!(
        server.connection(id),
        Some(Connection { id, is_websocket: true, is_closed: false })
    );
    assert!(server.send(id, "y").is_ok());
}

#[test]
fn close_client_twice_is_no_error() {
    let mut server = WebSocketServer::new();
    let a = connect(&mut server);
    let b = connect(&mut server);
    assert_eq!(server.close_client(a), Some(vec![0x88, 0x00]));
    assert_eq!(server.connection(a), None);
    assert_eq!(server.close_client(a), None);
    assert_eq!(server.close_client(999), None);
    assert_eq!(server.connection_count(), 1);
    assert_eq!(server.connection(b), Some(Connection { id: b, is_websocket: true, is_closed: false }));
    assert!(server.send(b, "still here").is_ok());
    assert_eq!(server.send(a, "gone"), Err(WsError::NotFound));
    // Closing on the owner's request queues no event.
    assert_eq!(server.pending_events(), 2);
}

#[test]
fn broadcast_targets_the_open_connections() {
    let mut server = WebSocketServer::new();
    let a = connect(&mut server);
    let b = connect(&mut server);
    let c = connect(&mut server);
    let _pending = server.open_connection().unwrap();
    server.on_read(b, close());
    let broadcast = server.broadcast("hi");
    let mut targets = broadcast.targets.clone();
    targets.sort();
    assert_eq!(targets, vec![a, c]);
    assert_eq!(broadcast.frame, vec![0x81, 0x02, b'h', b'i']);
    assert_eq!(
        server.finish_broadcast(&[]),
        Ok(Broadcast { targets: Vec::new(), frame: vec![0x88, 0x00] })
    );
    assert_eq!(server.connection_count(), 3);
}

#[test]
fn broadcast_removes_exactly_the_failed_connections() {
    let mut server = WebSocketServer::new();
    let mut ids = Vec::new();
    for _ in 0..5 {
        ids.push(connect(&mut server));
    }
    let broadcast = server.broadcast("news");
    assert_eq!(broadcast.targets.len(), 5);
    let failed = vec![ids[1], ids[3]];
    assert_eq!(
        server.finish_broadcast(&failed),
        Ok(Broadcast { targets: failed.clone(), frame: vec![0x88, 0x00] })
    );
    assert_eq!(server.connection_count(), 3);
    for id in &failed {
        assert_eq!(server.connection(*id), None);
        assert_eq!(server.send(*id, "x"), Err(WsError::NotFound));
    }
    for id in [ids[0], ids[2], ids[4]] {
        assert!(server.send(id, "x").is_ok());
    }
    let mut targets = server.broadcast("again").targets;
    targets.sort();
    assert_eq!(targets, vec![ids[0], ids[2], ids[4]]);
    // No event is queued for the removed connections.
    assert_eq!(server.pending_events(), 5);
}

#[test]
fn finish_broadcast_skips_what_is_gone() {
    let mut server = WebSocketServer::new();
    let a = connect(&mut server);
    let b = connect(&mut server);
    assert_eq!(
        server.finish_broadcast(&[a, 77, a, b]),
        Ok(Broadcast { targets: vec![a, b], frame: vec![0x88, 0x00] })
    );
    assert_eq!(server.connection_count(), 0);
}

#[test]
fn on_frame_ignores_unknown_connections() {
    let mut server = WebSocketServer::new();
    assert_eq!(
        server.on_frame(5, Ok(Some(WebSocketFrame::Text("x".to_string())))),
        PollAction::Nothing
    );
    assert_eq!(server.on_frame(5, Err(WsError::ReadFailed)), PollAction::Nothing);
    assert_eq!(server.pending_events(), 0);
}

#[test]
fn upgrade_without_negotiation_registers_nothing() {
    let mut server = WebSocketServer::new();
    let id = server.open_connection().unwrap();
    assert!(server.is_upgrading(id));
    assert!(!server.is_negotiated(id));
    // No request was answered with the upgrade response yet.
    assert!(!server.complete_upgrade(id, true));
    assert!(!server.is_upgrading(id));
    assert_eq!(server.connection(id), None);
    assert_eq!(server.connection_count(), 0);
    assert_eq!(server.accept(), None);
}

#[test]
fn request_that_leaves_the_root_is_not_found() {
    let not_found =
        b"HTTP/1.1 404 Not Found\r\nContent-Length: 0\r\nConnection: close\r\n\r\n".to_vec();
    assert_eq!(
        classify_request(b"GET /../secret.txt HTTP/1.1\r\n\r\n"),
        RequestAction::NotFound(not_found.clone())
    );
    assert_eq!(
        classify_request(b"GET /a/../../etc/passwd HTTP/1.1\r\n\r\n"),
        RequestAction::NotFound(not_found.clone())
    );
    assert_eq!(
        classify_request(b"GET index.html HTTP/1.1\r\n\r\n"),
        RequestAction::NotFound(not_found.clone())
    );
    let mut server = WebSocketServer::new();
    let id = server.open_connection().unwrap();
    assert_eq!(
        server.handle_request(id, b"GET /../secret.txt HTTP/1.1\r\n\r\n"),
        RequestAction::NotFound(not_found)
    );
    assert!(!server.is_upgrading(id));
}

#[test]
fn close_frame_with_a_reason_disconnects() {
    let mut server = WebSocketServer::new();
    let id = connect(&mut server);
    let frame = encode_masked_frame(WebSocketOpcode::Close, &[0x03, 0xE8], &[1, 2, 3, 4]);
    assert_eq!(server.on_read(id, ReadOutcome::Data(frame)), PollAction::Close(vec![0x88, 0x00]));
    let other = connect(&mut server);
    assert_eq!(
        server.on_frame(other, Ok(Some(WebSocketFrame::Close(vec![0x03, 0xE9])))),
        PollAction::Close(vec![0x88, 0x00])
    );
    let mut removed = server.sweep();
    removed.sort();
    assert_eq!(removed, vec![id, other]);
}
