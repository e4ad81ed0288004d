use ws_server::registry::{Connection, Registry, Selection};

fn open(id: u64) -> Connection {
    Connection { id, is_websocket: true, is_closed: false }
}

#[test]
fn new_registry_is_empty() {
    let r = Registry::new();
    assert_eq!(r.len(), 0);
    assert!(!r.contains(1));
    assert_eq!(r.get(1), None);
    assert_eq!(r.select(Selection::All), Vec::<u64>::new());
}

#[test]
fn insert_then_get() {
    let mut r = Registry::new();
    r.insert(open(3));
    r.insert(open(1));
    assert_eq!(r.len(), 2);
    assert!(r.contains(3));
    assert_eq!(r.get(3), Some(open(3)));
    assert_eq!(r.get(1), Some(open(1)));
    assert_eq!(r.get(2), None);
}

#[test]
fn insert_replaces_the_entry_of_the_same_id() {
    let mut r = Registry::new();
    r.insert(open(3));
    r.insert(Connection { id: 3, is_websocket: false, is_closed: true });
    assert_eq!(r.len(), 1);
    assert_eq!(r.get(3), Some(Connection { id: 3, is_websocket: false, is_closed: true }));
}

#[test]
fn remove_returns_the_entry_once() {
    let mut r = Registry::new();
    r.insert(open(1));
    r.insert(open(2));
    r.insert(open(3));
    assert_eq!(r.remove(2), Some(open(2)));
    assert_eq!(r.remove(2), None);
    assert_eq!(r.len(), 2);
    assert_eq!(r.get(1), Some(open(1)));
    assert_eq!(r.get(3), Some(open(3)));
    assert_eq!(r.remove(9), None);
    assert_eq!(r.len(), 2);
}

#[test]
fn mark_closed_keeps_the_entry() {
    let mut r = Registry::new();
    r.insert(open(1));
    r.insert(open(2));
    assert!(r.mark_closed(1));
    assert!(!r.mark_closed(5));
    assert_eq!(r.get(1), Some(Connection { id: 1, is_websocket: true, is_closed: true }));
    assert_eq!(r.get(2), Some(open(2)));
    assert_eq!(r.len(), 2);
}

#[test]
fn select_filters_by_state() {
    let mut r = Registry::new();
    r.insert(open(1));
    r.insert(open(2));
    r.insert(Connection { id: 3, is_websocket: false, is_closed: false });
    r.insert(open(4));
    r.mark_closed(2);
    let mut all = r.select(Selection::All);
    all.sort();
    assert_eq!(all, vec![1, 2, 3, 4]);
    let mut live = r.select(Selection::Open);
    live.sort();
    assert_eq!(live, vec![1, 4]);
    assert_eq!(r.select(Selection::Closed), vec![2]);
}

#[test]
fn selection_takes_by_flags() {
    let closed = Connection { id: 1, is_websocket: true, is_closed: true };
    let plain = Connection { id: 2, is_websocket: false, is_closed: false };
    assert!(Selection::All.takes(&closed));
    assert!(!Selection::Open.takes(&closed));
    assert!(Selection::Closed.takes(&closed));
    assert!(!Selection::Open.takes(&plain));
    assert!(!Selection::Closed.takes(&plain));
    assert!(Selection::Open.takes(&open(3)));
}
