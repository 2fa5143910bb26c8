use relay_hub::registry::{PeerHandle, Registry};

#[test]
fn lookup_finds_upserted_handle() {
    let mut reg = Registry::new();
    reg.upsert("s1".to_string(), PeerHandle { conn: 0, role: "sender".to_string() });
    reg.upsert("r1".to_string(), PeerHandle { conn: 1, role: "receiver".to_string() });
    let h = reg.lookup("s1").expect("s1 registered");
    assert_eq!(h.conn, 0);
    assert_eq!(h.role, "sender");
    let h = reg.lookup("r1").expect("r1 registered");
    assert_eq!(h.conn, 1);
    assert_eq!(h.role, "receiver");
}

#[test]
fn lookup_of_absent_id_is_none() {
    let reg = Registry::new();
    assert!(reg.lookup("nobody").is_none());
}

#[test]
fn upsert_same_id_last_writer_wins() {
    let mut reg = Registry::new();
    reg.upsert("x".to_string(), PeerHandle { conn: 0, role: "sender".to_string() });
    reg.upsert("x".to_string(), PeerHandle { conn: 5, role: "receiver".to_string() });
    let h = reg.lookup("x").expect("x registered");
    assert_eq!(h.conn, 5);
    assert_eq!(h.role, "receiver");
}

#[test]
fn remove_makes_id_unresolvable() {
    let mut reg = Registry::new();
    reg.upsert("a".to_string(), PeerHandle { conn: 0, role: "sender".to_string() });
    reg.upsert("b".to_string(), PeerHandle { conn: 1, role: "receiver".to_string() });
    reg.remove("a");
    assert!(reg.lookup("a").is_none());
    assert_eq!(reg.lookup("b").expect("b stays").conn, 1);
}

#[test]
fn remove_of_absent_id_is_noop() {
    let mut reg = Registry::new();
    reg.upsert("a".to_string(), PeerHandle { conn: 0, role: "sender".to_string() });
    reg.remove("ghost");
    assert_eq!(reg.lookup("a").expect("a stays").conn, 0);
}
