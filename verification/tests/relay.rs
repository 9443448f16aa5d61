use chat_relay::frame::Frame;
use chat_relay::ids::IdGenerator;
use chat_relay::registry::ConnectionHandle;
use chat_relay::registry::Registry;
use chat_relay::server::Server;
use chat_relay::session::Session;
use chat_relay::session::SessionState;

#[test]
fn three_clients_hello_world() {
    let mut s = Server::new();
    let a = s.connect().unwrap();
    let b = s.connect().unwrap();
    let c = s.connect().unwrap();
    assert_eq!((a, b, c), (1, 2, 3));
    s.handle_frame(&Frame::Text(String::from("hello")));
    for id in [a, b, c] {
        assert_eq!(s.queue_len(id), Some(1));
        assert_eq!(s.next_delivery(id).as_deref(), Some("hello"));
        assert_eq!(s.queue_len(id), Some(0));
    }
    s.disconnect(b);
    assert!(!s.is_connected(b));
    s.handle_frame(&Frame::Text(String::from("world")));
    assert_eq!(s.next_delivery(a).as_deref(), Some("world"));
    assert_eq!(s.next_delivery(c).as_deref(), Some("world"));
    assert_eq!(s.queue_len(a), Some(0));
    assert_eq!(s.queue_len(c), Some(0));
    assert_eq!(s.queue_len(b), None);
    assert_eq!(s.next_delivery(b), None);
    assert_eq!(s.connection_count(), 2);
}

#[test]
fn hundred_senders_all_receive_everything() {
    let mut s = Server::new();
    let mut ids = Vec::new();
    for _ in 0..100 {
        ids.push(s.connect().unwrap());
    }
    assert_eq!(s.connection_count(), 100);
    for i in 0..100 {
        s.handle_frame(&Frame::Text(format!("msg-{}", i)));
    }
    for &id in &ids {
        assert_eq!(s.queue_len(id), Some(100));
        for i in 0..100 {
            assert_eq!(s.next_delivery(id).unwrap(), format!("msg-{}", i));
        }
        assert_eq!(s.next_delivery(id), None);
    }
}

#[test]
fn connect_ids_all_distinct() {
    let mut s = Server::new();
    let mut seen: Vec<u64> = Vec::new();
    for _ in 0..50 {
        let id = s.connect().unwrap();
        assert!(!seen.contains(&id));
        seen.push(id);
    }
    assert_eq!(s.connection_count(), 50);
}

#[test]
fn ids_never_reused_after_disconnect() {
    let mut s = Server::new();
    let a = s.connect().unwrap();
    s.disconnect(a);
    let b = s.connect().unwrap();
    assert_ne!(a, b);
    assert!(!s.is_connected(a));
    assert!(s.is_connected(b));
}

#[test]
fn non_text_frames_are_not_rebroadcast() {
    let mut s = Server::new();
    let a = s.connect().unwrap();
    let b = s.connect().unwrap();
    s.handle_frame(&Frame::Text(String::from("one")));
    s.handle_frame(&Frame::Binary(vec![1, 2, 3]));
    s.handle_frame(&Frame::Ping(vec![]));
    s.handle_frame(&Frame::Pong(vec![9]));
    s.handle_frame(&Frame::Close);
    assert_eq!(s.queue_len(a), Some(1));
    assert_eq!(s.queue_len(b), Some(1));
    assert_eq!(s.next_delivery(a).as_deref(), Some("one"));
    assert_eq!(s.next_delivery(b).as_deref(), Some("one"));
}

#[test]
fn broadcasts_after_disconnect_never_reach_the_leaver() {
    let mut s = Server::new();
    let a = s.connect().unwrap();
    let b = s.connect().unwrap();
    s.disconnect(a);
    s.handle_frame(&Frame::Text(String::from("late")));
    assert_eq!(s.queue_len(a), None);
    assert_eq!(s.next_delivery(a), None);
    assert_eq!(s.queue_len(b), Some(1));
}

#[test]
fn disconnect_of_absent_id_is_a_noop() {
    let mut s = Server::new();
    let a = s.connect().unwrap();
    s.disconnect(77);
    assert_eq!(s.connection_count(), 1);
    assert!(s.is_connected(a));
    s.disconnect(a);
    s.disconnect(a);
    assert_eq!(s.connection_count(), 0);
}

#[test]
fn broadcast_with_nobody_connected_does_nothing() {
    let mut s = Server::new();
    s.handle_frame(&Frame::Text(String::from("void")));
    assert_eq!(s.connection_count(), 0);
}

#[test]
fn registry_register_broadcast_deregister() {
    let mut r = Registry::new();
    r.register(ConnectionHandle::new(5));
    assert!(r.contains_id(5));
    assert!(!r.contains_id(6));
    assert_eq!(r.len(), 1);
    r.broadcast(&String::from("x"));
    assert_eq!(r.queue_len(5), Some(1));
    assert_eq!(r.take_next(5).as_deref(), Some("x"));
    assert_eq!(r.take_next(5), None);
    r.deregister(5);
    assert!(!r.contains_id(5));
    assert_eq!(r.queue_len(5), None);
}

#[test]
fn handle_queue_is_fifo() {
    let mut h = ConnectionHandle::new(1);
    assert_eq!(h.identifier(), 1);
    assert_eq!(h.outbound_len(), 0);
    h.enqueue(&String::from("a"));
    h.enqueue(&String::from("b"));
    assert_eq!(h.outbound_len(), 2);
    assert_eq!(h.take_next().as_deref(), Some("a"));
    assert_eq!(h.take_next().as_deref(), Some("b"));
    assert_eq!(h.take_next(), None);
}

#[test]
fn generator_counts_up_from_one() {
    let mut g = IdGenerator::new();
    assert!(g.has_capacity());
    let a = g.fresh_id();
    let b = g.fresh_id();
    let c = g.fresh_id();
    assert_eq!((a, b, c), (1, 2, 3));
}

#[test]
fn session_lifecycle_joins_and_leaves() {
    let mut srv = Server::new();
    let mut sess = Session::new();
    assert_eq!(sess.phase(), SessionState::Connecting);
    assert_eq!(sess.connection_id(), None);
    let id = sess.on_upgraded(&mut srv).unwrap();
    assert_eq!(sess.phase(), SessionState::Joined);
    assert_eq!(sess.connection_id(), Some(id));
    assert!(srv.is_connected(id));
    sess.on_frame(&mut srv, &Frame::Text(String::from("hi")));
    assert_eq!(srv.queue_len(id), Some(1));
    sess.on_frame(&mut srv, &Frame::Close);
    assert_eq!(srv.queue_len(id), Some(1));
    sess.on_read_end(&mut srv);
    assert_eq!(sess.phase(), SessionState::Draining);
    assert!(!srv.is_connected(id));
    sess.on_drained();
    assert_eq!(sess.phase(), SessionState::Closed);
}

#[test]
fn session_failed_handshake_never_joins() {
    let mut srv = Server::new();
    let mut sess = Session::new();
    sess.on_upgrade_failed();
    assert_eq!(sess.phase(), SessionState::Closed);
    assert_eq!(sess.connection_id(), None);
    assert_eq!(srv.connection_count(), 0);
    assert_eq!(srv.connect(), Some(1));
}

#[test]
fn text_payload_only_for_text_frames() {
    let t = Frame::Text(String::from("t"));
    assert_eq!(t.text_payload().map(|s| s.as_str()), Some("t"));
    assert!(Frame::Binary(vec![0]).text_payload().is_none());
    assert!(Frame::Ping(vec![1]).text_payload().is_none());
    assert!(Frame::Pong(vec![2]).text_payload().is_none());
    assert!(Frame::Close.text_payload().is_none());
}
