//! Laws of the server's state machine: what holds across several steps.

use vstd::prelude::*;
use crate::error::WsError;
use crate::event::EventView;
use crate::frame::FrameView;
use crate::http::{safe_path, under_root};
use crate::server::{spec_request_action, subject, RequestActionView, ServerState};

verus! {

/// Removing connections one after the other removes exactly their
/// identifiers from the table, and changes nothing else.
pub proof fn lemma_close_all(s: ServerState, ids: Seq<u64>)
    ensures
        s.close_all(ids) == (ServerState {
            connections: s.connections.remove_keys(ids.to_set()),
            ..s
        }),
    decreases ids.len(),
{
    if ids.len() == 0 {
        assert(ids.to_set() =~= Set::<u64>::empty());
        assert(s.connections.remove_keys(ids.to_set()) =~= s.connections);
    } else {
        let rest = ids.drop_last();
        lemma_close_all(s, rest);
        rest.lemma_push_to_set_commute(ids.last());
        assert(rest.push(ids.last()) =~= ids);
        assert(s.connections.remove_keys(rest.to_set()).remove(ids.last())
            =~= s.connections.remove_keys(ids.to_set()));
    }
}

/// The identifier that the next connection gets is in use nowhere: no
/// connection carries it, in its handshake or registered, and no waiting
/// event is about it. So no identifier is ever given out twice.
pub proof fn lemma_next_id_is_fresh(s: ServerState)
    requires
        s.inv(),
    ensures
        !s.upgrading.dom().contains(s.next_id),
        !s.connections.dom().contains(s.next_id),
        forall|i: int| 0 <= i < s.events.len() ==> subject(#[trigger] s.events[i]) != Some(s.next_id),
{
}

/// No message of a connection waits in the queue behind that connection's
/// disconnection, in any state that a server reaches.
pub proof fn lemma_no_message_after_disconnect(s: ServerState, i: int, j: int)
    requires
        s.inv(),
        0 <= i < j < s.events.len(),
        s.events[i] is Disconnected,
    ensures
        !(s.events[j] is Message && subject(s.events[j]) == subject(s.events[i])),
{
}

/// No request makes the server serve a file from outside the root
/// directory: a path that is handed out for serving begins with a slash
/// and has no segment `..`, and the place it names lies under the root,
/// whatever the root is.
pub proof fn lemma_served_path_stays_under_root(request: Seq<u8>, static_dir: Seq<u8>)
    ensures
        spec_request_action(request) matches RequestActionView::ServeFile(path) ==> safe_path(
            path,
        ) && under_root(static_dir + path, static_dir),
{
    if let RequestActionView::ServeFile(path) = spec_request_action(request) {
        let place = static_dir + path;
        let n = static_dir.len() as int;
        assert(place.subrange(0, n) =~= static_dir);
        assert(place.subrange(n, place.len() as int) =~= path);
    }
}

/// Sending fails with `NotFound` exactly for the identifiers under which
/// no connection is registered, whatever the text.
pub proof fn lemma_send_unknown(s: ServerState, id: u64, payload: Seq<u8>)
    ensures
        s.send_result(id, payload) == Err::<Seq<u8>, WsError>(WsError::NotFound)
            <==> !s.connections.dom().contains(id),
        s.send_result(id, payload) is Ok <==> s.connections.dom().contains(id)
            && !s.connections[id].is_closed,
{
}

/// Closing a connection a second time changes nothing and asks for no
/// frame to be written, and closing a connection touches no other one.
pub proof fn lemma_close_twice(s: ServerState, id: u64)
    ensures
        s.close(id).close(id) == s.close(id),
        s.close(id).close_reply(id) is None,
        forall|other: u64|
            other != id ==> (#[trigger] s.close(id).connections.dom().contains(other)
                == s.connections.dom().contains(other)),
        forall|other: u64|
            other != id && #[trigger] s.connections.dom().contains(other) ==> s.close(
                id,
            ).connections[other] == s.connections[other],
{
    assert(s.connections.remove(id).remove(id) =~= s.connections.remove(id));
}

/// A broadcast whose write fails for `failed.len()` of the open
/// connections removes exactly those from the table; every other open
/// connection is still there, unchanged, and can still be sent to.
pub proof fn lemma_broadcast_failures(s: ServerState, failed: Seq<u64>, payload: Seq<u8>)
    requires
        s.inv(),
        failed.no_duplicates(),
        forall|id: u64| failed.contains(id) ==> s.is_open(id),
    ensures
        s.close_all(failed).connections.dom() == s.connections.dom().difference(failed.to_set()),
        s.close_all(failed).connections.dom().len() == s.connections.dom().len() - failed.len(),
        forall|id: u64|
            failed.contains(id) ==> #[trigger] s.close_all(failed).send_result(id, payload) == Err::<
                Seq<u8>,
                WsError,
            >(WsError::NotFound),
        forall|id: u64|
            s.is_open(id) && !failed.contains(id) ==> s.close_all(failed).is_open(id) && (
            #[trigger] s.close_all(failed).send_result(id, payload)) is Ok,
{
    lemma_close_all(s, failed);
    let gone = failed.to_set();
    let after = s.close_all(failed).connections;
    assert(after.dom() =~= s.connections.dom().difference(gone));
    failed.unique_seq_to_set();
    assert(gone.subset_of(s.connections.dom()));
    vstd::set_lib::lemma_len_subset(gone, s.connections.dom());
    vstd::set_lib::lemma_set_difference_len(s.connections.dom(), gone);
    assert(s.connections.dom().intersect(gone) =~= gone);
}

/// Frames of one connection become events in the order in which they were
/// decoded: where two text frames and a close frame of an open connection
/// are handled one after the other, the two messages and the
/// disconnection stand at the end of the queue in that order.
pub proof fn lemma_event_order(
    s: ServerState,
    id: u64,
    first: Seq<char>,
    second: Seq<char>,
    reason: Seq<u8>,
)
    requires
        s.is_open(id),
    ensures
        s.after_frame(id, Ok(Some(FrameView::Text(first)))).after_frame(
            id,
            Ok(Some(FrameView::Text(second))),
        ).after_frame(id, Ok(Some(FrameView::Close(reason)))).events == s.events + seq![
            EventView::Message { client_id: id, text: first },
            EventView::Message { client_id: id, text: second },
            EventView::Disconnected(id),
        ],
{
    let s1 = s.after_frame(id, Ok(Some(FrameView::Text(first))));
    let s2 = s1.after_frame(id, Ok(Some(FrameView::Text(second))));
    let s3 = s2.after_frame(id, Ok(Some(FrameView::Close(reason))));
    assert(s1.is_open(id));
    assert(s2.is_open(id));
    assert(s3.events =~= s.events + seq![
        EventView::Message { client_id: id, text: first },
        EventView::Message { client_id: id, text: second },
        EventView::Disconnected(id),
    ]);
}

/// The owner gets the events in the order in which they were queued: from
/// a queue that holds `a`, `b` and `c`, three calls of `accept` return
/// `a`, then `b`, then `c`, and leave the queue empty.
pub proof fn lemma_accept_order(s: ServerState, a: EventView, b: EventView, c: EventView)
    requires
        s.events == seq![a, b, c],
    ensures
        s.next_event() == Some(a),
        s.after_accept().next_event() == Some(b),
        s.after_accept().after_accept().next_event() == Some(c),
        s.after_accept().after_accept().after_accept().events == Seq::<EventView>::empty(),
        s.after_accept().after_accept().after_accept().next_event() is None,
{
    let s1 = s.after_accept();
    let s2 = s1.after_accept();
    let s3 = s2.after_accept();
    assert(s1.events =~= seq![b, c]);
    assert(s2.events =~= seq![c]);
    assert(s3.events =~= Seq::<EventView>::empty());
}

/// Taking events out of the queue takes them in the order of the queue:
/// after `n` calls of `accept` the queue holds what stood behind its first
/// `n` events.
pub proof fn lemma_accept_is_fifo(s: ServerState, n: nat)
    requires
        n <= s.events.len(),
    ensures
        after_accepts(s, n).events == s.events.skip(n as int),
        n < s.events.len() ==> after_accepts(s, n).next_event() == Some(s.events[n as int]),
    decreases n,
{
    if n == 0 {
        assert(s.events.skip(0) =~= s.events);
    } else {
        lemma_accept_is_fifo(s, (n - 1) as nat);
        let before = after_accepts(s, (n - 1) as nat);
        assert(before.events.skip(1) =~= s.events.skip(n as int));
    }
}

/// The state after `n` calls of `accept`.
pub open spec fn after_accepts(s: ServerState, n: nat) -> ServerState
    decreases n,
{
    if n == 0 {
        s
    } else {
        after_accepts(s, (n - 1) as nat).after_accept()
    }
}

/// Handling a frame keeps the invariant of the state: in particular no
/// message of a connection is ever queued behind its disconnection.
pub proof fn lemma_after_frame_keeps_inv(
    s: ServerState,
    id: u64,
    outcome: Result<Option<FrameView>, WsError>,
)
    requires
        s.inv(),
    ensures
        s.after_frame(id, outcome).inv(),
{
    let t = s.after_frame(id, outcome);
    if s.is_open(id) {
        assert forall|i: int| 0 <= i < s.events.len() implies t.events[i] == s.events[i] by {}
    }
}

/// Closing connections and taking events keep the invariant of the state.
pub proof fn lemma_close_and_accept_keep_inv(s: ServerState, id: u64)
    requires
        s.inv(),
    ensures
        s.close(id).inv(),
        s.after_accept().inv(),
{
    let t = s.after_accept();
    if s.events.len() > 0 {
        assert forall|i: int| 0 <= i < t.events.len() implies t.events[i] == s.events[i + 1] by {}
    }
}

} // verus!
