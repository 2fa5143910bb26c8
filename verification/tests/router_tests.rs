use relay_hub::frame::Frame;
use relay_hub::registry::{PeerHandle, Registry};
use relay_hub::router::{disconnect, route_frame, Session};

fn fresh(handle: usize) -> Session {
    Session::new(handle)
}

#[test]
fn register_receiver_notifies_own_queue() {
    let mut reg = Registry::new();
    let mut sess = fresh(3);
    let out = route_frame(
        &mut reg,
        &mut sess,
        Frame::Text("{\"type\":\"register\",\"connectionId\":\"r1\",\"role\":\"receiver\"}".to_string()),
    );
    assert!(!out.terminate);
    let d = out.delivery.expect("receiver registration notifies");
    assert_eq!(d.dest, 3);
    assert_eq!(d.frame, Frame::Text("{\"type\":\"recipient_connected\"}".to_string()));
    assert_eq!(sess.registered_id, Some("r1".to_string()));
    assert_eq!(reg.lookup("r1").expect("registered").conn, 3);
}

#[test]
fn register_sender_notifies_nobody() {
    let mut reg = Registry::new();
    let mut sess = fresh(0);
    let out = route_frame(
        &mut reg,
        &mut sess,
        Frame::Text("{\"type\":\"register\",\"connectionId\":\"s1\",\"role\":\"sender\"}".to_string()),
    );
    assert!(!out.terminate);
    assert!(out.delivery.is_none());
    assert_eq!(reg.lookup("s1").expect("registered").role, "sender");
}

#[test]
fn relay_to_registered_target_is_verbatim() {
    let mut reg = Registry::new();
    reg.upsert("r1".to_string(), PeerHandle { conn: 7, role: "receiver".to_string() });
    let mut sess = fresh(0);
    let text = "{\"type\":\"file_info\",\"target_id\":\"r1\",\"name\":\"f.bin\",\"size\":10}";
    let out = route_frame(&mut reg, &mut sess, Frame::Text(text.to_string()));
    assert!(!out.terminate);
    let d = out.delivery.expect("target resolves");
    assert_eq!(d.dest, 7);
    assert_eq!(d.frame, Frame::Text(text.to_string()));
    assert_eq!(sess.current_target, Some("r1".to_string()));
}

#[test]
fn relay_to_unknown_target_is_dropped_silently() {
    let mut reg = Registry::new();
    let mut sess = fresh(0);
    let out = route_frame(
        &mut reg,
        &mut sess,
        Frame::Text("{\"type\":\"file_info\",\"target_id\":\"ghost\"}".to_string()),
    );
    assert!(!out.terminate);
    assert!(out.delivery.is_none());
    // The target is still remembered, even though it did not resolve.
    assert_eq!(sess.current_target, Some("ghost".to_string()));
}

#[test]
fn binary_before_any_target_is_dropped() {
    let mut reg = Registry::new();
    reg.upsert("r1".to_string(), PeerHandle { conn: 7, role: "receiver".to_string() });
    let mut sess = fresh(0);
    let out = route_frame(&mut reg, &mut sess, Frame::Binary(vec![1, 2, 3]));
    assert!(!out.terminate);
    assert!(out.delivery.is_none());
}

#[test]
fn binary_follows_current_target() {
    let mut reg = Registry::new();
    reg.upsert("r1".to_string(), PeerHandle { conn: 7, role: "receiver".to_string() });
    let mut sess = fresh(0);
    route_frame(
        &mut reg,
        &mut sess,
        Frame::Text("{\"type\":\"file_info\",\"target_id\":\"r1\"}".to_string()),
    );
    let payload: Vec<u8> = vec![0, 1, 2, 3, 4, 5, 6, 7, 8, 9];
    let out = route_frame(&mut reg, &mut sess, Frame::Binary(payload.clone()));
    let d = out.delivery.expect("target resolves");
    assert_eq!(d.dest, 7);
    assert_eq!(d.frame, Frame::Binary(payload));
}

#[test]
fn binary_after_target_left_is_dropped() {
    let mut reg = Registry::new();
    reg.upsert("r1".to_string(), PeerHandle { conn: 7, role: "receiver".to_string() });
    let mut sess = fresh(0);
    route_frame(
        &mut reg,
        &mut sess,
        Frame::Text("{\"type\":\"file_info\",\"target_id\":\"r1\"}".to_string()),
    );
    reg.remove("r1");
    let out = route_frame(&mut reg, &mut sess, Frame::Binary(vec![9]));
    assert!(!out.terminate);
    assert!(out.delivery.is_none());
}

#[test]
fn malformed_text_keeps_connection_open() {
    let mut reg = Registry::new();
    let mut sess = fresh(0);
    let out = route_frame(&mut reg, &mut sess, Frame::Text("{broken".to_string()));
    assert!(!out.terminate);
    assert!(out.delivery.is_none());
}

#[test]
fn ping_is_ignored() {
    let mut reg = Registry::new();
    let mut sess = fresh(0);
    let out = route_frame(&mut reg, &mut sess, Frame::Ping);
    assert!(!out.terminate);
    assert!(out.delivery.is_none());
}

#[test]
fn close_terminates_pipeline() {
    let mut reg = Registry::new();
    let mut sess = fresh(0);
    let out = route_frame(&mut reg, &mut sess, Frame::Close);
    assert!(out.terminate);
    assert!(out.delivery.is_none());
}

#[test]
fn disconnect_deregisters_exactly_the_registered_id() {
    let mut reg = Registry::new();
    let mut sess = fresh(2);
    route_frame(
        &mut reg,
        &mut sess,
        Frame::Text("{\"type\":\"register\",\"connectionId\":\"r1\",\"role\":\"receiver\"}".to_string()),
    );
    reg.upsert("other".to_string(), PeerHandle { conn: 9, role: "sender".to_string() });
    disconnect(&mut reg, &sess);
    assert!(reg.lookup("r1").is_none());
    assert_eq!(reg.lookup("other").expect("untouched").conn, 9);
}

#[test]
fn disconnect_of_unregistered_session_is_noop() {
    let mut reg = Registry::new();
    reg.upsert("a".to_string(), PeerHandle { conn: 1, role: "sender".to_string() });
    let sess = fresh(0);
    disconnect(&mut reg, &sess);
    assert_eq!(reg.lookup("a").expect("untouched").conn, 1);
}
