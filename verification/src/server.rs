//! The server: per-connection state machine, event production and the
//! operations of the owner. The sockets stay with the caller; every
//! function here decides from what the caller has read or written.

use std::collections::HashMap;
use vstd::prelude::*;
use vstd::std_specs::hash::*;
use vstd::string::*;
use vstd::utf8::encode_utf8;
use crate::error::WsError;
use crate::event::{EventQueue, EventView, WebSocketEvent};
use crate::frame::{
    decode_frame, encode_frame, frame_bytes, spec_decode, FrameView, WebSocketFrame,
    WebSocketOpcode,
};
use crate::handshake::{negotiate, spec_negotiate};
use crate::http::{
    error_response, is_safe_path, not_found_response, request_path, safe_path, spec_request_path,
};
use crate::registry::{is_open, Connection, Registry, Selection};
use crate::scan::{has_prefix, starts_with};
use crate::text::{text_of, utf8_lossy};

verus! {

broadcast use vstd::std_specs::hash::group_hash_axioms;

/// The state of a server, as mathematical values.
pub struct ServerState {
    /// Whether the server listens.
    pub listening: bool,
    /// The identifier that the next accepted connection gets.
    pub next_id: u64,
    /// The connections that were accepted and have not finished the
    /// handshake, each with whether its upgrade was negotiated: whether
    /// its request was answered with the upgrade response.
    pub upgrading: Map<u64, bool>,
    /// The registered connections.
    pub connections: Map<u64, Connection>,
    /// The events that wait for the owner, oldest first.
    pub events: Seq<EventView>,
}

/// The connection that an event is about, if it is about one.
pub open spec fn subject(e: EventView) -> Option<u64> {
    match e {
        EventView::Connected(id) => Some(id),
        EventView::Disconnected(id) => Some(id),
        EventView::Message { client_id, text } => Some(client_id),
        EventView::Error(_) => None,
        EventView::Shutdown => None,
    }
}

/// Whether no message of a connection waits behind that connection's
/// disconnection.
pub open spec fn no_message_after_disconnect(events: Seq<EventView>) -> bool {
    forall|i: int, j: int|
        0 <= i < j < events.len() && events[i] is Disconnected ==> !(events[j] is Message
            && subject(events[j]) == subject(events[i]))
}

impl ServerState {
    /// What holds of every state that a server reaches.
    ///
    /// Identifiers in use are below the next one to be given out, so none
    /// is given out twice; a connection is not at once upgrading and
    /// registered; a disconnection waits in the queue only for a connection
    /// that is gone or marked closed; and no message of a connection waits
    /// behind its disconnection.
    pub open spec fn inv(self) -> bool {
        &&& self.next_id >= 1
        &&& self.upgrading.dom().finite()
        &&& self.connections.dom().finite()
        &&& forall|id: u64| #[trigger]
            self.upgrading.dom().contains(id) ==> id < self.next_id
                && !self.connections.dom().contains(id)
        &&& forall|id: u64| #[trigger]
            self.connections.dom().contains(id) ==> id < self.next_id && self.connections[id].id
                == id
        &&& forall|i: int|
            0 <= i < self.events.len() ==> match subject(#[trigger] self.events[i]) {
                Some(id) => id < self.next_id,
                None => true,
            }
        &&& forall|i: int|
            0 <= i < self.events.len() && (#[trigger] self.events[i]) is Disconnected ==> {
                let id = self.events[i]->Disconnected_0;
                &&& !self.upgrading.dom().contains(id)
                &&& self.connections.dom().contains(id) ==> self.connections[id].is_closed
            }
        &&& no_message_after_disconnect(self.events)
    }

    /// The state of a server that was just made.
    pub open spec fn initial() -> ServerState {
        ServerState {
            listening: false,
            next_id: 1,
            upgrading: Map::empty(),
            connections: Map::empty(),
            events: Seq::empty(),
        }
    }

    /// Whether the connection `id` is in its handshake and its upgrade was
    /// negotiated, so that only the writing of the response is awaited.
    pub open spec fn is_negotiated(self, id: u64) -> bool {
        self.upgrading.dom().contains(id) && self.upgrading[id]
    }

    /// Whether a connection is registered under `id` and open.
    pub open spec fn is_open(self, id: u64) -> bool {
        self.connections.dom().contains(id) && is_open(self.connections[id])
    }

    /// The state after the connection `id` was marked closed and its
    /// disconnection queued.
    pub open spec fn disconnect(self, id: u64) -> ServerState {
        ServerState {
            connections: self.connections.insert(
                id,
                (Connection { is_closed: true, ..self.connections[id] }),
            ),
            events: self.events.push(EventView::Disconnected(id)),
            ..self
        }
    }

    /// The state after a decoding outcome of the connection `id` was
    /// handled. Only an open connection is looked at. A text frame queues
    /// a message; a close frame and an error mark the connection closed and
    /// queue its disconnection; everything else leaves the state as it is.
    pub open spec fn after_frame(
        self,
        id: u64,
        outcome: Result<Option<FrameView>, WsError>,
    ) -> ServerState {
        if !self.is_open(id) {
            self
        } else {
            match outcome {
                Ok(Some(FrameView::Text(text))) => ServerState {
                    events: self.events.push(EventView::Message { client_id: id, text }),
                    ..self
                },
                Ok(Some(FrameView::Close(_))) => self.disconnect(id),
                Ok(Some(FrameView::Ping(_))) => self,
                Ok(Some(FrameView::Pong(_))) => self,
                Ok(None) => self,
                Err(_) => self.disconnect(id),
            }
        }
    }

    /// The event that the owner gets next, if one waits.
    pub open spec fn next_event(self) -> Option<EventView> {
        if self.events.len() > 0 {
            Some(self.events[0])
        } else {
            None
        }
    }

    /// The state after the owner took the next event, if one waited.
    pub open spec fn after_accept(self) -> ServerState {
        if self.events.len() > 0 {
            ServerState { events: self.events.skip(1), ..self }
        } else {
            self
        }
    }

    /// What sending a text frame with `payload` to the connection `id`
    /// comes to: `NotFound` where none is registered under `id`,
    /// `ConnectionClosed` where it is marked closed, else the frame to
    /// write.
    pub open spec fn send_result(self, id: u64, payload: Seq<u8>) -> Result<Seq<u8>, WsError> {
        if !self.connections.dom().contains(id) {
            Err(WsError::NotFound)
        } else if self.connections[id].is_closed {
            Err(WsError::ConnectionClosed)
        } else {
            Ok(frame_bytes(WebSocketOpcode::Text, payload))
        }
    }

    /// The state after the connection `id` was removed on the owner's
    /// request.
    pub open spec fn close(self, id: u64) -> ServerState {
        ServerState { connections: self.connections.remove(id), ..self }
    }

    /// What closing the connection `id` asks the caller to write: a close
    /// frame where the connection was registered, else nothing.
    pub open spec fn close_reply(self, id: u64) -> Option<Seq<u8>> {
        if self.connections.dom().contains(id) {
            Some(close_frame())
        } else {
            None
        }
    }

    /// The state after the connections `ids` were removed one after the
    /// other.
    pub open spec fn close_all(self, ids: Seq<u64>) -> ServerState
        decreases ids.len(),
    {
        if ids.len() == 0 {
            self
        } else {
            self.close_all(ids.drop_last()).close(ids.last())
        }
    }

    /// What the caller is to do after a decoding outcome of the connection
    /// `id` was handled: answer a ping with a pong, and send a close frame
    /// where the connection was marked closed.
    pub open spec fn frame_action(
        self,
        id: u64,
        outcome: Result<Option<FrameView>, WsError>,
    ) -> PollActionView {
        if !self.is_open(id) {
            PollActionView::Nothing
        } else {
            match outcome {
                Ok(Some(FrameView::Text(_))) => PollActionView::Nothing,
                Ok(Some(FrameView::Close(_))) => PollActionView::Close(close_frame()),
                Ok(Some(FrameView::Ping(_))) => PollActionView::Reply(pong_frame()),
                Ok(Some(FrameView::Pong(_))) => PollActionView::Nothing,
                Ok(None) => PollActionView::Nothing,
                Err(_) => PollActionView::Close(close_frame()),
            }
        }
    }
}

/// What the caller found when it tried to bind the listening socket.
#[derive(Clone, Copy, Debug, PartialEq, Eq, Structural)]
pub enum BindOutcome {
    /// The socket is bound and non-blocking.
    Bound,
    /// The socket could not be bound.
    BindFailed,
    /// The socket is bound but could not be made non-blocking.
    SetNonBlockingFailed,
}

/// What is to be done with the first request of a connection.
#[derive(Clone, Debug, PartialEq, Eq)]
pub enum RequestAction {
    /// Send this response; the connection is then a WebSocket connection.
    Upgrade(Vec<u8>),
    /// Serve the file at this path, which stays under the root directory,
    /// then close the connection.
    ServeFile(Vec<u8>),
    /// Send this response, which reports that nothing is there, then close
    /// the connection.
    NotFound(Vec<u8>),
    /// Close the connection without an answer.
    Drop,
}

/// A `RequestAction`, as mathematical values.
pub enum RequestActionView {
    Upgrade(Seq<u8>),
    ServeFile(Seq<u8>),
    NotFound(Seq<u8>),
    Drop,
}

impl View for RequestAction {
    type V = RequestActionView;

    open spec fn view(&self) -> RequestActionView {
        match self {
            RequestAction::Upgrade(response) => RequestActionView::Upgrade(response@),
            RequestAction::ServeFile(path) => RequestActionView::ServeFile(path@),
            RequestAction::NotFound(response) => RequestActionView::NotFound(response@),
            RequestAction::Drop => RequestActionView::Drop,
        }
    }
}

/// What is to be done with a request, given as text: an upgrade where the
/// negotiation succeeds, nothing where it fails; where a request that asks
/// for no upgrade begins with `GET ` and names a path, the file at that
/// path if the path stays under the root directory, and the answer that
/// nothing is there if it does not; nothing otherwise.
pub open spec fn spec_request_action(request: Seq<u8>) -> RequestActionView {
    match spec_negotiate(request) {
        Ok(Some(response)) => RequestActionView::Upgrade(response),
        Err(_) => RequestActionView::Drop,
        Ok(None) => if starts_with(request, "GET ".spec_bytes()) {
            match spec_request_path(request) {
                Some(path) => if safe_path(path) {
                    RequestActionView::ServeFile(path)
                } else {
                    RequestActionView::NotFound(not_found_response())
                },
                None => RequestActionView::Drop,
            }
        } else {
            RequestActionView::Drop
        },
    }
}

/// Decides what is to be done with the bytes of a connection's first
/// request. The bytes are read as text first, malformed UTF-8 replaced.
pub fn classify_request(raw: &[u8]) -> (action: RequestAction)
    ensures
        action@ == spec_request_action(encode_utf8(text_of(raw@))),
{
    let text = utf8_lossy(raw);
    let request = text.as_str().as_bytes();
    match negotiate(request) {
        Ok(Some(response)) => RequestAction::Upgrade(response),
        Err(_) => RequestAction::Drop,
        Ok(None) => {
            if has_prefix(request, "GET ".as_bytes()) {
                match request_path(request) {
                    Some(path) => {
                        if is_safe_path(path.as_slice()) {
                            RequestAction::ServeFile(path)
                        } else {
                            RequestAction::NotFound(error_response(404, "Not Found".as_bytes()))
                        }
                    },
                    None => RequestAction::Drop,
                }
            } else {
                RequestAction::Drop
            }
        },
    }
}

/// What the caller found when it tried to read a frame from a connection.
#[derive(Clone, Debug, PartialEq, Eq)]
pub enum ReadOutcome {
    /// These bytes arrived.
    Data(Vec<u8>),
    /// Nothing is there to be read yet.
    WouldBlock,
    /// The read failed.
    Failed,
}

/// What was read from a connection, decoded: a frame, nothing yet, or the
/// error that ends the connection.
pub open spec fn spec_read_frame(read: ReadOutcome) -> Result<Option<FrameView>, WsError> {
    match read {
        ReadOutcome::Data(bytes) => match spec_decode(bytes@) {
            Ok(Some((frame, _))) => Ok(Some(frame)),
            Ok(None) => Ok(None),
            Err(e) => Err(e),
        },
        ReadOutcome::WouldBlock => Ok(None),
        ReadOutcome::Failed => Err(WsError::ReadFailed),
    }
}

/// A decoding outcome, as mathematical values.
pub open spec fn frame_outcome_view(outcome: Result<Option<WebSocketFrame>, WsError>) -> Result<
    Option<FrameView>,
    WsError,
> {
    match outcome {
        Ok(Some(frame)) => Ok(Some(frame@)),
        Ok(None) => Ok(None),
        Err(e) => Err(e),
    }
}

/// What the caller is to do with a connection after a frame was handled.
#[derive(Clone, Debug, PartialEq, Eq)]
pub enum PollAction {
    /// Nothing.
    Nothing,
    /// Write these bytes to the connection, ignoring a failure.
    Reply(Vec<u8>),
    /// Write these bytes to the connection, ignoring a failure, and expect
    /// the connection to be removed.
    Close(Vec<u8>),
}

/// A `PollAction`, as mathematical values.
pub enum PollActionView {
    Nothing,
    Reply(Seq<u8>),
    Close(Seq<u8>),
}

impl View for PollAction {
    type V = PollActionView;

    open spec fn view(&self) -> PollActionView {
        match self {
            PollAction::Nothing => PollActionView::Nothing,
            PollAction::Reply(bytes) => PollActionView::Reply(bytes@),
            PollAction::Close(bytes) => PollActionView::Close(bytes@),
        }
    }
}

/// The bytes of a close frame without payload.
pub open spec fn close_frame() -> Seq<u8> {
    frame_bytes(WebSocketOpcode::Close, Seq::empty())
}

/// The bytes of a pong frame without payload.
pub open spec fn pong_frame() -> Seq<u8> {
    frame_bytes(WebSocketOpcode::Pong, Seq::empty())
}

/// The part of a table that is not marked closed.
pub open spec fn without_closed(m: Map<u64, Connection>) -> Map<u64, Connection> {
    Map::new(|id: u64| m.dom().contains(id) && !m[id].is_closed, |id: u64| m[id])
}

/// What is to be written, and to whom.
#[derive(Clone, Debug, PartialEq, Eq)]
pub struct Broadcast {
    /// The identifiers of the connections to write to.
    pub targets: Vec<u64>,
    /// The frame to write to each of them.
    pub frame: Vec<u8>,
}

/// The server's state: whether it listens, the identifier counter, the
/// connections in their handshake, the registry and the event queue.
pub struct WebSocketServer {
    listening: bool,
    next_id: u64,
    upgrading: HashMap<u64, bool>,
    registry: Registry,
    queue: EventQueue,
}

impl View for WebSocketServer {
    type V = ServerState;

    closed spec fn view(&self) -> ServerState {
        ServerState {
            listening: self.listening,
            next_id: self.next_id,
            upgrading: self.upgrading@,
            connections: self.registry@,
            events: self.queue@,
        }
    }
}

impl WebSocketServer {
    /// Whether the registry holds every connection under its own
    /// identifier.
    pub closed spec fn tables_wf(&self) -> bool {
        self.registry.wf()
    }

    /// The server's invariant.
    pub open spec fn wf(&self) -> bool {
        self.tables_wf() && self@.inv()
    }

    /// Returns a server that does not listen yet, with no connection and
    /// no event. The first identifier it gives out is 1.
    pub fn new() -> (s: WebSocketServer)
        ensures
            s.wf(),
            s@ == ServerState::initial(),
    {
        let s = WebSocketServer {
            listening: false,
            next_id: 1,
            upgrading: HashMap::new(),
            registry: Registry::new(),
            queue: EventQueue::new(),
        };
        s
    }

    /// Returns the connection registered under `id`, if there is one.
    pub fn connection(&self, id: u64) -> (r: Option<Connection>)
        requires
            self.wf(),
        ensures
            r == (if self@.connections.dom().contains(id) {
                Some(self@.connections[id])
            } else {
                None
            }),
    {
        self.registry.get(id)
    }

    /// Returns the number of registered connections.
    pub fn connection_count(&self) -> (n: usize)
        requires
            self.wf(),
        ensures
            n == self@.connections.dom().len(),
    {
        self.registry.len()
    }

    /// Returns the number of events that wait for the owner.
    pub fn pending_events(&self) -> (n: usize)
        ensures
            n == self@.events.len(),
    {
        self.queue.len()
    }

    /// Tells whether the connection `id` is in its handshake.
    pub fn is_upgrading(&self, id: u64) -> (b: bool)
        ensures
            b == self@.upgrading.dom().contains(id),
    {
        self.upgrading.contains_key(&id)
    }

    /// Tells whether the connection `id` is in its handshake and its
    /// upgrade was negotiated.
    pub fn is_negotiated(&self, id: u64) -> (b: bool)
        ensures
            b == self@.is_negotiated(id),
    {
        match self.upgrading.get(&id) {
            Some(negotiated) => *negotiated,
            None => false,
        }
    }

    /// Tells whether the server listens.
    pub fn is_listening(&self) -> (b: bool)
        ensures
            b == self@.listening,
    {
        self.listening
    }

    /// Starts listening, given what became of binding the socket.
    ///
    /// Fails with `AlreadyRunning` where the server listens already,
    /// whatever the outcome of the binding; else with `BindFailed` or
    /// `SetNonBlockingFailed` as the outcome says. Only success changes the
    /// state.
    pub fn listen(&mut self, outcome: BindOutcome) -> (r: Result<(), WsError>)
        requires
            old(self).wf(),
        ensures
            final(self).wf(),
            r == (if old(self)@.listening {
                Err::<(), WsError>(WsError::AlreadyRunning)
            } else {
                match outcome {
                    BindOutcome::Bound => Ok(()),
                    BindOutcome::BindFailed => Err(WsError::BindFailed),
                    BindOutcome::SetNonBlockingFailed => Err(WsError::SetNonBlockingFailed),
                }
            }),
            final(self)@ == (ServerState { listening: old(self)@.listening || r is Ok, ..old(self)@ }),
    {
        if self.listening {
            return Err(WsError::AlreadyRunning);
        }
        match outcome {
            BindOutcome::Bound => {
                self.listening = true;
                Ok(())
            },
            BindOutcome::BindFailed => Err(WsError::BindFailed),
            BindOutcome::SetNonBlockingFailed => Err(WsError::SetNonBlockingFailed),
        }
    }

    /// Gives a newly accepted connection its identifier and notes it as
    /// being in its handshake. Identifiers count up from 1 and none is
    /// given out twice; `None` is returned once they are used up.
    pub fn open_connection(&mut self) -> (r: Option<u64>)
        requires
            old(self).wf(),
        ensures
            final(self).wf(),
            old(self)@.next_id < u64::MAX ==> r == Some(old(self)@.next_id) && final(self)@ == (
            ServerState {
                next_id: (old(self)@.next_id + 1) as u64,
                upgrading: old(self)@.upgrading.insert(old(self)@.next_id, false),
                ..old(self)@
            }),
            old(self)@.next_id == u64::MAX ==> r is None && final(self)@ == old(self)@,
    {
        if self.next_id == u64::MAX {
            return None;
        }
        let id: u64 = self.next_id;
        self.next_id = id + 1;
        self.upgrading.insert(id, false);
        Some(id)
    }

    /// Decides what is to be done with the first request of the connection
    /// `id`, which must be in its handshake; for any other `id` the answer
    /// is `Drop` and nothing changes. Where the answer is `Upgrade`, the
    /// upgrade is noted as negotiated; otherwise the connection's handshake
    /// is over and its identifier is forgotten.
    pub fn handle_request(&mut self, id: u64, raw: &[u8]) -> (action: RequestAction)
        requires
            old(self).wf(),
        ensures
            final(self).wf(),
            action@ == (if old(self)@.upgrading.dom().contains(id) {
                spec_request_action(encode_utf8(text_of(raw@)))
            } else {
                RequestActionView::Drop
            }),
            final(self)@ == (ServerState {
                upgrading: if !old(self)@.upgrading.dom().contains(id) {
                    old(self)@.upgrading
                } else if action@ is Upgrade {
                    old(self)@.upgrading.insert(id, true)
                } else {
                    old(self)@.upgrading.remove(id)
                },
                ..old(self)@
            }),
    {
        if !self.upgrading.contains_key(&id) {
            return RequestAction::Drop;
        }
        let action = classify_request(raw);
        match action {
            RequestAction::Upgrade(_) => {
                self.upgrading.insert(id, true);
            },
            _ => {
                self.upgrading.remove(&id);
            },
        }
        action
    }

    /// Ends the handshake of the connection `id`, given whether the upgrade
    /// response could be written. Where it could, and the upgrade of `id`
    /// was negotiated, the connection is registered as open and `Connected`
    /// is queued; else the connection is forgotten without an event. Tells
    /// whether the connection was registered.
    pub fn complete_upgrade(&mut self, id: u64, written: bool) -> (registered: bool)
        requires
            old(self).wf(),
        ensures
            final(self).wf(),
            registered == (written && old(self)@.is_negotiated(id)),
            registered ==> final(self)@ == (ServerState {
                upgrading: old(self)@.upgrading.remove(id),
                connections: old(self)@.connections.insert(
                    id,
                    (Connection { id, is_websocket: true, is_closed: false }),
                ),
                events: old(self)@.events.push(EventView::Connected(id)),
                ..old(self)@
            }),
            !registered ==> final(self)@ == (ServerState {
                upgrading: old(self)@.upgrading.remove(id),
                ..old(self)@
            }),
    {
        let negotiated = match self.upgrading.remove(&id) {
            Some(negotiated) => negotiated,
            None => false,
        };
        if !negotiated || !written {
            return false;
        }
        self.registry.insert(Connection { id, is_websocket: true, is_closed: false });
        self.queue.push(WebSocketEvent::Connected(id));
        true
    }

    /// Returns the identifiers of the open connections, each once: those
    /// that frames are to be read from.
    pub fn poll_targets(&self) -> (ids: Vec<u64>)
        requires
            self.wf(),
        ensures
            ids@.no_duplicates(),
            forall|id: u64| ids@.contains(id) <==> self@.is_open(id),
    {
        self.registry.select(Selection::Open)
    }

    /// Handles one decoding outcome of the connection `id` and says what
    /// the caller is to do. The state changes as `after_frame` says, the
    /// answer is the one that `frame_action` gives.
    pub fn on_frame(&mut self, id: u64, outcome: Result<Option<WebSocketFrame>, WsError>) -> (action:
        PollAction)
        requires
            old(self).wf(),
        ensures
            final(self).wf(),
            final(self)@ == old(self)@.after_frame(id, frame_outcome_view(outcome)),
            action@ == old(self)@.frame_action(id, frame_outcome_view(outcome)),
    {
        let open = match self.registry.get(id) {
            Some(c) => c.is_websocket && !c.is_closed,
            None => false,
        };
        if !open {
            return PollAction::Nothing;
        }
        match outcome {
            Ok(Some(WebSocketFrame::Text(text))) => {
                self.queue.push(WebSocketEvent::Message { client_id: id, text });
                PollAction::Nothing
            },
            Ok(Some(WebSocketFrame::Ping(_))) => PollAction::Reply(
                encode_frame(WebSocketOpcode::Pong, &[]),
            ),
            Ok(Some(WebSocketFrame::Pong(_))) => PollAction::Nothing,
            Ok(None) => PollAction::Nothing,
            Ok(Some(WebSocketFrame::Close(_))) | Err(_) => {
                self.registry.mark_closed(id);
                self.queue.push(WebSocketEvent::Disconnected(id));
                PollAction::Close(encode_frame(WebSocketOpcode::Close, &[]))
            },
        }
    }

    /// Handles what the caller read from the connection `id`: decodes the
    /// bytes, if any arrived, and goes on as `on_frame` does.
    pub fn on_read(&mut self, id: u64, read: ReadOutcome) -> (action: PollAction)
        requires
            old(self).wf(),
        ensures
            final(self).wf(),
            final(self)@ == old(self)@.after_frame(id, spec_read_frame(read)),
            action@ == old(self)@.frame_action(id, spec_read_frame(read)),
    {
        let outcome = match read {
            ReadOutcome::Data(bytes) => match decode_frame(bytes.as_slice()) {
                Ok(Some(decoded)) => Ok(Some(decoded.frame)),
                Ok(None) => Ok(None),
                Err(e) => Err(e),
            },
            ReadOutcome::WouldBlock => Ok(None),
            ReadOutcome::Failed => Err(WsError::ReadFailed),
        };
        self.on_frame(id, outcome)
    }

    /// Takes the connection `id` out of the registry.
    fn drop_connection(&mut self, id: u64)
        requires
            old(self).wf(),
        ensures
            final(self).wf(),
            final(self)@ == (ServerState {
                connections: old(self)@.connections.remove(id),
                ..old(self)@
            }),
    {
        self.registry.remove(id);
    }

    /// Removes the connections that are marked closed and returns their
    /// identifiers, each once. The others stay as they are.
    pub fn sweep(&mut self) -> (removed: Vec<u64>)
        requires
            old(self).wf(),
        ensures
            final(self).wf(),
            final(self)@ == (ServerState {
                connections: without_closed(old(self)@.connections),
                ..old(self)@
            }),
            removed@.no_duplicates(),
            forall|id: u64|
                removed@.contains(id) <==> (old(self)@.connections.dom().contains(id) && old(
                    self,
                )@.connections[id].is_closed),
    {
        let removed = self.registry.select(Selection::Closed);
        let ghost before = self@.connections;
        let mut i: usize = 0;
        assert(removed@.take(0).to_set() =~= Set::<u64>::empty());
        assert(before.remove_keys(Set::<u64>::empty()) =~= before);
        while i < removed.len()
            invariant
                i <= removed.len(),
                self.wf(),
                self@ == (ServerState {
                    connections: before.remove_keys(removed@.take(i as int).to_set()),
                    ..old(self)@
                }),
            decreases removed.len() - i,
        {
            let id: u64 = removed[i];
            self.drop_connection(id);
            proof {
                let done = removed@.take(i as int);
                assert(removed@.take(i + 1) =~= done.push(id));
                done.lemma_push_to_set_commute(id);
                assert(before.remove_keys(done.to_set()).remove(id) =~= before.remove_keys(
                    done.to_set().insert(id),
                ));
            }
            i = i + 1;
        }
        proof {
            assert(removed@.take(removed.len() as int) =~= removed@);
            assert forall|k: u64|
                before.remove_keys(removed@.to_set()).dom().contains(k) <==> without_closed(
                    before,
                ).dom().contains(k) by {
                assert(removed@.to_set().contains(k) <==> removed@.contains(k));
            }
            assert(before.remove_keys(removed@.to_set()) =~= without_closed(before));
        }
        removed
    }

    /// Takes the oldest event out of the queue, if one waits. The others
    /// keep their order.
    pub fn accept(&mut self) -> (r: Option<WebSocketEvent>)
        requires
            old(self).wf(),
        ensures
            final(self).wf(),
            final(self)@ == old(self)@.after_accept(),
            match old(self)@.next_event() {
                Some(event) => r matches Some(e) && e@ == event,
                None => r is None,
            },
    {
        let r = self.queue.pop();
        proof {
            if old(self)@.events.len() > 0 {
                let before = old(self)@.events;
                let after = final(self)@.events;
                assert forall|i: int| 0 <= i < after.len() implies after[i] == before[i + 1] by {}
            }
        }
        r
    }

    /// Prepares sending `message` to the connection `id`: returns the text
    /// frame to write, or `NotFound` where no connection is registered
    /// under `id`, or `ConnectionClosed` where it is marked closed.
    pub fn send(&self, id: u64, message: &str) -> (r: Result<Vec<u8>, WsError>)
        requires
            self.wf(),
        ensures
            match self@.send_result(id, message.spec_bytes()) {
                Ok(frame) => r matches Ok(v) && v@ == frame,
                Err(e) => r matches Err(x) && x == e,
            },
    {
        match self.registry.get(id) {
            None => Err(WsError::NotFound),
            Some(c) => {
                if c.is_closed {
                    Err(WsError::ConnectionClosed)
                } else {
                    Ok(encode_frame(WebSocketOpcode::Text, message.as_bytes()))
                }
            },
        }
    }

    /// Says what a `send` comes to once the frame was handed to the
    /// socket: `WriteFailed` where the write failed. The connection stays
    /// registered and open either way.
    pub fn send_written(&self, written: bool) -> (r: Result<(), WsError>)
        ensures
            r == (if written {
                Ok::<(), WsError>(())
            } else {
                Err::<(), WsError>(WsError::WriteFailed)
            }),
    {
        if written {
            Ok(())
        } else {
            Err(WsError::WriteFailed)
        }
    }

    /// Prepares sending `message` to every open connection: returns their
    /// identifiers and the text frame to write to each.
    pub fn broadcast(&self, message: &str) -> (b: Broadcast)
        requires
            self.wf(),
        ensures
            b.frame@ == frame_bytes(WebSocketOpcode::Text, message.spec_bytes()),
            b.targets@.no_duplicates(),
            forall|id: u64| b.targets@.contains(id) <==> self@.is_open(id),
    {
        Broadcast {
            targets: self.registry.select(Selection::Open),
            frame: encode_frame(WebSocketOpcode::Text, message.as_bytes()),
        }
    }

    /// Removes the connection `id` on the owner's request and returns the
    /// close frame that the caller is to write to it, ignoring a failure.
    /// Where no connection is registered under `id`, nothing changes and
    /// nothing is returned; this is no error.
    pub fn close_client(&mut self, id: u64) -> (r: Option<Vec<u8>>)
        requires
            old(self).wf(),
        ensures
            final(self).wf(),
            final(self)@ == old(self)@.close(id),
            match old(self)@.close_reply(id) {
                Some(frame) => r matches Some(v) && v@ == frame,
                None => r is None,
            },
    {
        match self.registry.remove(id) {
            Some(_) => Some(encode_frame(WebSocketOpcode::Close, &[])),
            None => None,
        }
    }

    /// Ends a broadcast, given the connections to which the write failed:
    /// each is removed as `close_client` removes it. Always succeeds, and
    /// returns the identifiers of the connections that were removed, in
    /// the order of `failed`, with the close frame that the caller is to
    /// write to each, ignoring a failure.
    pub fn finish_broadcast(&mut self, failed: &[u64]) -> (r: Result<Broadcast, WsError>)
        requires
            old(self).wf(),
        ensures
            final(self).wf(),
            final(self)@ == old(self)@.close_all(failed@),
            r matches Ok(closing) && closing.targets@ == spec_removed(old(self)@, failed@)
                && closing.frame@ == close_frame(),
    {
        let mut removed: Vec<u64> = Vec::new();
        let mut i: usize = 0;
        assert(failed@.take(0) =~= Seq::<u64>::empty());
        while i < failed.len()
            invariant
                i <= failed.len(),
                self.wf(),
                self@ == old(self)@.close_all(failed@.take(i as int)),
                removed@ == spec_removed(old(self)@, failed@.take(i as int)),
            decreases failed.len() - i,
        {
            let id: u64 = failed[i];
            proof {
                assert(failed@.take(i + 1).drop_last() =~= failed@.take(i as int));
                assert(failed@.take(i + 1).last() == id);
            }
            if self.close_client(id).is_some() {
                removed.push(id);
            }
            i = i + 1;
        }
        assert(failed@.take(failed.len() as int) =~= failed@);
        Ok(Broadcast { targets: removed, frame: encode_frame(WebSocketOpcode::Close, &[]) })
    }
}

/// The connections that closing `ids` one after the other removes, in
/// that order: each identifier that is still registered when its turn
/// comes.
pub open spec fn spec_removed(s: ServerState, ids: Seq<u64>) -> Seq<u64>
    decreases ids.len(),
{
    if ids.len() == 0 {
        Seq::empty()
    } else if s.close_all(ids.drop_last()).connections.dom().contains(ids.last()) {
        spec_removed(s, ids.drop_last()).push(ids.last())
    } else {
        spec_removed(s, ids.drop_last())
    }
}

} // verus!
