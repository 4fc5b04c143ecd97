use quicsock::peers::{PeerAddr, SessionTable};

fn v4(port: u16) -> PeerAddr {
    PeerAddr::V4 { ip4: 0x7f00_0001, port }
}

#[test]
fn insert_registers_a_session() {
    let mut t: SessionTable<&str> = SessionTable::new();
    assert_eq!(t.len(), 0);
    assert_eq!(t.insert(v4(5000), "a"), None);
    assert_eq!(t.insert(v4(5001), "b"), None);
    assert_eq!(t.len(), 2);
}

#[test]
fn insert_for_a_known_address_replaces_and_hands_back() {
    let mut t: SessionTable<&str> = SessionTable::new();
    t.insert(v4(5000), "a");
    assert_eq!(t.insert(v4(5000), "b"), Some("a"));
    assert_eq!(t.len(), 1);
    assert_eq!(t.remove(v4(5000)), Some("b"));
}

#[test]
fn remove_of_unknown_address_is_a_no_op() {
    let mut t: SessionTable<u32> = SessionTable::new();
    t.insert(v4(1), 1);
    assert_eq!(t.remove(v4(2)), None);
    assert_eq!(t.len(), 1);
    let v6 = PeerAddr::V6 { ip6: 1, port: 1, flowinfo: 0, scope_id: 0 };
    assert_eq!(t.remove(v6), None);
}

#[test]
fn drain_hands_back_everything_in_order() {
    let mut t: SessionTable<u32> = SessionTable::new();
    t.insert(v4(1), 10);
    t.insert(v4(2), 20);
    t.insert(v4(3), 30);
    t.remove(v4(2));
    assert_eq!(t.drain(), vec![10, 30]);
    assert_eq!(t.len(), 0);
    assert!(t.drain().is_empty());
}
