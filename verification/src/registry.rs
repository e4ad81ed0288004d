//! The table of live connections, keyed by connection identifier.

use std::collections::HashMap;
use vstd::prelude::*;
use vstd::std_specs::hash::*;
use vstd::std_specs::iter::IteratorSpec;

verus! {

broadcast use vstd::std_specs::hash::group_hash_axioms;

/// The protocol state of one connection. The socket itself stays with the
/// caller, who finds it again by the identifier.
#[derive(Clone, Copy, Debug, PartialEq, Eq, Structural)]
pub struct Connection {
    /// The connection's identifier.
    pub id: u64,
    /// Whether the connection has completed the upgrade.
    pub is_websocket: bool,
    /// Whether the connection is marked closed and waits for its removal.
    pub is_closed: bool,
}

/// Whether a connection is one that messages are sent to: upgraded and
/// not marked closed.
pub open spec fn is_open(c: Connection) -> bool {
    c.is_websocket && !c.is_closed
}

/// Which connections an enumeration of the table asks for.
#[derive(Clone, Copy, Debug, PartialEq, Eq, Structural)]
pub enum Selection {
    /// Every registered connection.
    All,
    /// The upgraded connections that are not marked closed.
    Open,
    /// The connections marked closed.
    Closed,
}

impl Selection {
    /// Whether the selection takes a connection in.
    pub open spec fn accepts(self, c: Connection) -> bool {
        match self {
            Selection::All => true,
            Selection::Open => is_open(c),
            Selection::Closed => c.is_closed,
        }
    }

    /// Tells whether the selection takes a connection in.
    pub fn takes(&self, c: &Connection) -> (b: bool)
        ensures
            b == self.accepts(*c),
    {
        match self {
            Selection::All => true,
            Selection::Open => c.is_websocket && !c.is_closed,
            Selection::Closed => c.is_closed,
        }
    }
}

/// The table of live connections: a mapping from identifier to
/// connection, in which every connection stands under its own identifier.
pub struct Registry {
    conns: HashMap<u64, Connection>,
}

impl View for Registry {
    type V = Map<u64, Connection>;

    closed spec fn view(&self) -> Map<u64, Connection> {
        self.conns@
    }
}

impl Registry {
    /// The table's invariant: it holds finitely many connections, each
    /// under its own identifier.
    pub open spec fn wf(&self) -> bool {
        &&& self@.dom().finite()
        &&& forall|id: u64| #[trigger] self@.dom().contains(id) ==> self@[id].id == id
    }

    /// Returns the empty table.
    pub fn new() -> (r: Registry)
        ensures
            r.wf(),
            r@ == Map::<u64, Connection>::empty(),
    {
        Registry { conns: HashMap::new() }
    }

    /// Returns the number of registered connections.
    pub fn len(&self) -> (n: usize)
        ensures
            n == self@.dom().len(),
    {
        self.conns.len()
    }

    /// Tells whether a connection is registered under `id`.
    pub fn contains(&self, id: u64) -> (b: bool)
        ensures
            b == self@.dom().contains(id),
    {
        self.conns.contains_key(&id)
    }

    /// Returns the connection registered under `id`, if there is one.
    pub fn get(&self, id: u64) -> (r: Option<Connection>)
        ensures
            r == (if self@.dom().contains(id) {
                Some(self@[id])
            } else {
                None
            }),
    {
        match self.conns.get(&id) {
            Some(c) => Some(*c),
            None => None,
        }
    }

    /// Registers a connection under its identifier, in place of the one
    /// that was registered under it, if any.
    pub fn insert(&mut self, conn: Connection)
        requires
            old(self).wf(),
        ensures
            final(self).wf(),
            final(self)@ == old(self)@.insert(conn.id, conn),
    {
        self.conns.insert(conn.id, conn);
    }

    /// Takes the connection registered under `id` out of the table and
    /// returns it. Where none is registered, nothing changes.
    pub fn remove(&mut self, id: u64) -> (r: Option<Connection>)
        requires
            old(self).wf(),
        ensures
            final(self).wf(),
            final(self)@ == old(self)@.remove(id),
            r == (if old(self)@.dom().contains(id) {
                Some(old(self)@[id])
            } else {
                None
            }),
    {
        self.conns.remove(&id)
    }

    /// Marks the connection registered under `id` closed and tells whether
    /// there was one. It stays registered until it is removed.
    pub fn mark_closed(&mut self, id: u64) -> (found: bool)
        requires
            old(self).wf(),
        ensures
            final(self).wf(),
            found == old(self)@.dom().contains(id),
            found ==> final(self)@ == old(self)@.insert(
                id,
                (Connection { is_closed: true, ..old(self)@[id] }),
            ),
            !found ==> final(self)@ == old(self)@,
    {
        match self.get(id) {
            Some(c) => {
                self.conns.insert(
                    id,
                    Connection { id: c.id, is_websocket: c.is_websocket, is_closed: true },
                );
                true
            },
            None => false,
        }
    }

    /// Returns the identifiers of the registered connections that `keep`
    /// selects, each once and in no particular order: all of them, only
    /// the open ones, or only those marked closed.
    pub fn select(&self, keep: Selection) -> (ids: Vec<u64>)
        ensures
            ids@.no_duplicates(),
            forall|id: u64|
                ids@.contains(id) <==> (self@.dom().contains(id) && keep.accepts(self@[id])),
    {
        let mut ids: Vec<u64> = Vec::new();
        let ghost keys = spec_keys_iter(&self.conns).remaining();
        proof {
            axiom_spec_keys_iter(&self.conns);
        }
        for k in it: self.conns.keys()
            invariant
                it.seq() == keys,
                keys.unref().to_set() == self.conns@.dom(),
                keys.no_duplicates(),
                ids@.no_duplicates(),
                forall|id: u64|
                    ids@.contains(id) <==> (exists|j: int|
                        0 <= j < it.index() && *keys[j] == id && keep.accepts(self.conns@[id])),
        {
            let id: u64 = *k;
            let ghost cur = it.index();
            let ghost before = ids@;
            proof {
                assert(keys.unref()[cur] == id);
                assert(keys.unref().to_set().contains(id));
            }
            match self.conns.get(k) {
                Some(c) => {
                    if keep.takes(c) {
                        assert(!before.contains(id)) by {
                            if before.contains(id) {
                                let j = choose|j: int|
                                    0 <= j < cur && *keys[j] == id && keep.accepts(
                                        self.conns@[id],
                                    );
                                assert(keys[j] == keys[cur]);
                            }
                        }
                        ids.push(id);
                        assert forall|x: u64| ids@.contains(x) <==> (before.contains(x) || x
                            == id) by {
                            if before.contains(x) {
                                let t = choose|t: int| 0 <= t < before.len() && before[t] == x;
                                assert(ids@[t] == x);
                            }
                            if x == id {
                                assert(ids@[before.len() as int] == x);
                            }
                        }
                    }
                },
                None => {},
            }
            assert forall|x: u64|
                ids@.contains(x) <==> (exists|j: int|
                    0 <= j < cur + 1 && *keys[j] == x && keep.accepts(self.conns@[x])) by {
                if exists|j: int|
                    0 <= j < cur + 1 && *keys[j] == x && keep.accepts(self.conns@[x]) {
                    let j = choose|j: int|
                        0 <= j < cur + 1 && *keys[j] == x && keep.accepts(self.conns@[x]);
                    if j < cur {
                        assert(before.contains(x));
                    }
                }
                if before.contains(x) {
                    let j = choose|j: int|
                        0 <= j < cur && *keys[j] == x && keep.accepts(self.conns@[x]);
                    assert(0 <= j < cur + 1);
                }
                if x == id && keep.accepts(self.conns@[id]) {
                    assert(*keys[cur] == x);
                }
            }
        }
        proof {
            assert forall|id: u64|
                ids@.contains(id) <==> (self@.dom().contains(id) && keep.accepts(
                    self@[id],
                )) by {
                if ids@.contains(id) {
                    let j = choose|j: int|
                        0 <= j < keys.len() && *keys[j] == id && keep.accepts(self.conns@[id]);
                    assert(keys.unref()[j] == id);
                    assert(keys.unref().to_set().contains(id));
                }
                if self@.dom().contains(id) && keep.accepts(self@[id]) {
                    assert(keys.unref().to_set().contains(id));
                    let j = choose|j: int| 0 <= j < keys.unref().len() && keys.unref()[j] == id;
                    assert(*keys[j] == id);
                }
            }
        }
        ids
    }
}

} // verus!
