//! Events and the queue that hands them to the owner in arrival order.

use vstd::prelude::*;

verus! {

/// What the server reports to its owner.
#[derive(Debug, Clone, PartialEq, Eq)]
pub enum WebSocketEvent {
    /// A connection completed the upgrade.
    Connected(u64),
    /// A connection was closed by its peer or failed.
    Disconnected(u64),
    /// A text message arrived on a connection.
    Message { client_id: u64, text: String },
    /// Something went wrong that belongs to no connection.
    Error(String),
    /// The server is shutting down.
    Shutdown,
}

/// An event, as mathematical values.
pub enum EventView {
    Connected(u64),
    Disconnected(u64),
    Message { client_id: u64, text: Seq<char> },
    Error(Seq<char>),
    Shutdown,
}

impl View for WebSocketEvent {
    type V = EventView;

    open spec fn view(&self) -> EventView {
        match self {
            WebSocketEvent::Connected(id) => EventView::Connected(*id),
            WebSocketEvent::Disconnected(id) => EventView::Disconnected(*id),
            WebSocketEvent::Message { client_id, text } => EventView::Message {
                client_id: *client_id,
                text: text@,
            },
            WebSocketEvent::Error(message) => EventView::Error(message@),
            WebSocketEvent::Shutdown => EventView::Shutdown,
        }
    }
}

/// The events of a queue, oldest first, as mathematical values.
pub open spec fn views_of(events: Seq<WebSocketEvent>) -> Seq<EventView> {
    events.map_values(|e: WebSocketEvent| e@)
}

/// A first-in, first-out queue of events, bounded only by memory.
pub struct EventQueue {
    events: Vec<WebSocketEvent>,
}

impl View for EventQueue {
    type V = Seq<EventView>;

    closed spec fn view(&self) -> Seq<EventView> {
        views_of(self.events@)
    }
}

impl EventQueue {
    /// Returns the empty queue.
    pub fn new() -> (q: EventQueue)
        ensures
            q@ == Seq::<EventView>::empty(),
    {
        let q = EventQueue { events: Vec::new() };
        assert(q@ =~= Seq::<EventView>::empty());
        q
    }

    /// Returns the number of events that wait in the queue.
    pub fn len(&self) -> (n: usize)
        ensures
            n == self@.len(),
    {
        self.events.len()
    }

    /// Tells whether no event waits in the queue.
    pub fn is_empty(&self) -> (b: bool)
        ensures
            b == (self@.len() == 0),
    {
        self.events.len() == 0
    }

    /// Appends an event behind all that wait.
    pub fn push(&mut self, event: WebSocketEvent)
        ensures
            final(self)@ == old(self)@.push(event@),
    {
        self.events.push(event);
        assert(final(self)@ =~= old(self)@.push(event@));
    }

    /// Takes the oldest event out of the queue, if there is one. The others
    /// keep their order.
    pub fn pop(&mut self) -> (r: Option<WebSocketEvent>)
        ensures
            old(self)@.len() == 0 ==> r is None && final(self)@ == old(self)@,
            old(self)@.len() > 0 ==> (r matches Some(e) && e@ == old(self)@[0]),
            old(self)@.len() > 0 ==> final(self)@ == old(self)@.skip(1),
    {
        if self.events.len() == 0 {
            None
        } else {
            let e = self.events.remove(0);
            assert(final(self)@ =~= old(self)@.skip(1));
            Some(e)
        }
    }
}

} // verus!
