use next_socks5::metrics::{format_event, ConnKind, Event, Metrics};
use next_socks5::net::{IpAddr, Ipv4Addr, SocketAddr};

fn addr() -> SocketAddr {
    SocketAddr::new(IpAddr::V4(Ipv4Addr::localhost()), 1080)
}

#[test]
fn register_assigns_distinct_ids_and_counts() {
    let mut m = Metrics::new();
    let id1 = m.register(addr(), "a:80".into(), ConnKind::Connect);
    let id2 = m.register(addr(), "b:80".into(), ConnKind::Udp);
    assert_ne!(id1, id2);
    let snap = m.snapshot();
    assert_eq!(snap.total_conns, 2);
    assert_eq!(snap.active_conns, 2);
}

#[test]
fn unregister_decrements_active_only() {
    let mut m = Metrics::new();
    let id1 = m.register(addr(), "a:80".into(), ConnKind::Connect);
    let _id2 = m.register(addr(), "b:80".into(), ConnKind::Connect);
    m.unregister(id1);
    let snap = m.snapshot();
    assert_eq!(snap.active_conns, 1);
    assert_eq!(snap.total_conns, 2);
}

#[test]
fn add_up_accumulates_global_and_per_conn() {
    let mut m = Metrics::new();
    let id = m.register(addr(), "a:80".into(), ConnKind::Connect);
    m.add_up(id, 100);
    m.add_up(id, 50);
    assert_eq!(m.snapshot().bytes_up, 150);
    let conn = m.connections().into_iter().find(|c| c.id == id).unwrap();
    assert_eq!(conn.up, 150);
}

#[test]
fn add_down_accumulates_global_and_per_conn() {
    let mut m = Metrics::new();
    let id = m.register(addr(), "a:80".into(), ConnKind::Connect);
    m.add_down(id, 100);
    m.add_down(id, 50);
    assert_eq!(m.snapshot().bytes_down, 150);
    let conn = m.connections().into_iter().find(|c| c.id == id).unwrap();
    assert_eq!(conn.down, 150);
}

#[test]
fn record_error_counts_failures_and_buckets() {
    let mut m = Metrics::new();
    m.record_error(5);
    m.record_error(5);
    let snap = m.snapshot();
    assert_eq!(snap.failures, 2);
    assert_eq!(snap.error_codes[5], 2);
}

#[test]
fn record_error_out_of_range_is_safe() {
    let mut m = Metrics::new();
    m.record_error(200);
    let snap = m.snapshot();
    // Chosen behavior: failures still increments, no histogram bucket
    // written, no panic / out-of-bounds access.
    assert_eq!(snap.failures, 1);
    assert_eq!(snap.error_codes, [0u64; 9]);
}

#[test]
fn record_success_increments() {
    let mut m = Metrics::new();
    m.record_success();
    m.record_success();
    assert_eq!(m.snapshot().successes, 2);
}

#[test]
fn ids_start_at_one_and_are_not_reused() {
    let mut m = Metrics::new();
    assert_eq!(m.register(addr(), "a:80".into(), ConnKind::Connect), 1);
    m.unregister(1);
    assert_eq!(m.register(addr(), "a:80".into(), ConnKind::Connect), 2);
    assert_eq!(m.active(), 1);
    assert_eq!(m.connections().len(), 1);
}

#[test]
fn a_session_leaves_the_registry_as_it_was() {
    let mut m = Metrics::new();
    let other = m.register(addr(), "x:1".into(), ConnKind::Udp);
    let id = m.register(addr(), "y:2".into(), ConnKind::Connect);
    m.add_up(id, 7);
    m.add_down(id, 9);
    m.unregister(id);
    let list = m.connections();
    assert_eq!(list.len(), 1);
    assert_eq!(list[0].id, other);
    assert_eq!(list[0].target, "x:1");
    assert_eq!((list[0].up, list[0].down), (0, 0));
    let snap = m.snapshot();
    assert_eq!((snap.total_conns, snap.active_conns), (2, 1));
    assert_eq!((snap.bytes_up, snap.bytes_down), (7, 9));
}

#[test]
fn bytes_of_unknown_connections_count_globally() {
    let mut m = Metrics::new();
    m.add_up(42, 5);
    m.add_down(42, 6);
    assert_eq!(m.snapshot().bytes_up, 5);
    assert_eq!(m.snapshot().bytes_down, 6);
    assert!(m.connections().is_empty());
}

#[test]
fn the_active_count_wraps_like_a_counter() {
    let mut m = Metrics::new();
    m.unregister(3);
    assert_eq!(m.active(), u64::MAX);
    m.register(addr(), "a:80".into(), ConnKind::Connect);
    assert_eq!(m.active(), 0);
}

#[test]
fn events_clone() {
    let ev = Event::Auth {
        ok: true,
        user: "alice".into(),
    };
    assert_eq!(ev.clone(), ev);
}

#[test]
fn events_are_rendered_as_lines() {
    let connect = Event::Connect {
        id: 7,
        src: addr(),
        target: "example.com:443".into(),
        kind: ConnKind::Connect,
    };
    assert_eq!(
        format_event(&connect),
        "[7] CONNECT 127.0.0.1:1080 -> example.com:443"
    );
    let udp = Event::Connect {
        id: 8,
        src: addr(),
        target: "udp-associate".into(),
        kind: ConnKind::Udp,
    };
    assert_eq!(
        format_event(&udp),
        "[8] UDP 127.0.0.1:1080 -> udp-associate"
    );
    assert_eq!(format_event(&Event::Closed { id: 12 }), "[12] closed");
    for (ok, line) in [(true, "auth ok: bob"), (false, "auth failed: bob")] {
        let user = "bob".into();
        assert_eq!(format_event(&Event::Auth { ok, user }), line);
    }
    for (code, line) in [(4, "error 0x04: no"), (0xfe, "error 0xfe: no")] {
        let msg = "no".into();
        assert_eq!(format_event(&Event::Error { code, msg }), line);
    }
    assert_eq!(format_event(&Event::Log("hello".into())), "hello");
}

#[test]
fn a_registration_is_listed_beside_the_others() {
    let mut m = Metrics::new();
    let first = m.register(addr(), "a:1".into(), ConnKind::Connect);
    m.add_up(first, 3);
    let before = m.snapshot();
    let second = m.register(addr(), "b:2".into(), ConnKind::Udp);
    let mut list = m.connections();
    list.sort_by_key(|c| c.id);
    assert_eq!(list.len(), 2);
    assert_eq!((list[0].id, list[0].up), (first, 3));
    assert_eq!((list[1].id, list[1].up, list[1].down), (second, 0, 0));
    assert_eq!(list[1].target, "b:2");
    let after = m.snapshot();
    assert_eq!(after.total_conns, before.total_conns + 1);
    assert_eq!(after.active_conns, before.active_conns + 1);
    assert_eq!(after.bytes_up, before.bytes_up);
}
