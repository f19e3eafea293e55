use wadio::registry::{Registry, Sink};

struct Broken;

impl Sink for Broken {
    fn deliver(&mut self, _chunk: &[u8]) -> bool {
        false
    }
}

enum Listener {
    Good(Vec<u8>),
    Bad(Broken),
}

impl Sink for Listener {
    fn deliver(&mut self, chunk: &[u8]) -> bool {
        match self {
            Listener::Good(v) => v.deliver(chunk),
            Listener::Bad(b) => b.deliver(chunk),
        }
    }
}

#[test]
fn broadcast_to_nobody_succeeds() {
    let mut r: Registry<Vec<u8>> = Registry::new();
    let dropped = r.broadcast(b"chunk");
    assert!(dropped.is_empty());
    assert_eq!(r.len(), 0);
}

#[test]
fn failing_listener_is_dropped_alone() {
    let mut r: Registry<Listener> = Registry::new();
    r.add_with_id(1, Listener::Good(vec![])).ok().unwrap();
    r.add_with_id(2, Listener::Bad(Broken)).ok().unwrap();
    r.add_with_id(3, Listener::Good(vec![])).ok().unwrap();
    let dropped = r.broadcast(b"chunk");
    assert_eq!(dropped, vec![2]);
    assert_eq!(r.len(), 2);
    assert!(r.contains(1) && r.contains(3) && !r.contains(2));
    for i in 0..2 {
        match &r.entry(i).sink {
            Listener::Good(v) => assert_eq!(v, b"chunk"),
            Listener::Bad(_) => panic!("the failing listener stayed"),
        }
    }
    assert_eq!(r.entry(0).id, 1);
    assert_eq!(r.entry(1).id, 3);
}

#[test]
fn listeners_receive_each_chunk_in_order() {
    let mut r: Registry<Vec<u8>> = Registry::new();
    r.add_with_id(7, vec![]).ok().unwrap();
    r.add_with_id(8, vec![]).ok().unwrap();
    r.broadcast(b"ab");
    r.broadcast(b"cd");
    assert_eq!(r.entry(0).sink, b"abcd".to_vec());
    assert_eq!(r.entry(1).sink, b"abcd".to_vec());
    r.remove(7);
    assert_eq!(r.len(), 1);
    assert!(r.contains(8));
}

#[test]
fn retain_delivered_reports_the_dropped() {
    let mut r: Registry<Vec<u8>> = Registry::new();
    for id in 10u128..14 {
        r.add_with_id(id, vec![]).ok().unwrap();
    }
    let dropped = r.retain_delivered(&vec![false, true, false, true]);
    assert_eq!(dropped, vec![10, 12]);
    assert!(r.contains(11) && r.contains(13));
    assert_eq!(r.len(), 2);
}

#[test]
fn duplicate_id_is_refused() {
    let mut r: Registry<Vec<u8>> = Registry::new();
    assert!(r.add_with_id(5, vec![]).is_ok());
    let back = r.add_with_id(5, vec![9]);
    assert_eq!(back.err(), Some(vec![9]));
    assert_eq!(r.len(), 1);
}

#[test]
fn remove_is_idempotent() {
    let mut r: Registry<Vec<u8>> = Registry::new();
    r.add_with_id(1, vec![]).ok().unwrap();
    r.remove(1);
    r.remove(1);
    assert_eq!(r.len(), 0);
}

#[test]
fn random_ids_are_fresh() {
    let mut r: Registry<Vec<u8>> = Registry::new();
    let a = r.add(vec![]).ok().unwrap();
    let b = r.add(vec![]).ok().unwrap();
    assert_ne!(a, b);
    assert_ne!(a, 0);
    assert!(r.contains(a) && r.contains(b));
}
