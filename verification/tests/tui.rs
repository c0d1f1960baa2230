use next_socks5::metrics::{ConnInfo, ConnKind, Snapshot};
use next_socks5::net::{IpAddr, Ipv4Addr, SocketAddr};
use next_socks5::tui::dashboard::{
    drain_events, key_action, sort_connections, transferred, BusRead, DashboardState, KeyAction,
};
use next_socks5::tui::widgets::{
    byte_unit, connection_row, connections_title, log_start, stats_lines, title, ByteUnit, LogRing,
};

#[test]
fn logring_drops_oldest_at_capacity() {
    let mut ring = LogRing::new(3);
    ring.push("a".into());
    ring.push("b".into());
    ring.push("c".into());
    ring.push("d".into());
    assert_eq!(ring.len(), 3);
    let lines: Vec<&String> = ring.lines().collect();
    assert_eq!(
        lines,
        vec![&"b".to_string(), &"c".to_string(), &"d".to_string()]
    );
}

#[test]
fn logring_within_capacity_preserves_order() {
    let mut ring = LogRing::new(5);
    assert!(ring.is_empty());
    ring.push("one".into());
    ring.push("two".into());
    assert_eq!(ring.len(), 2);
    let lines: Vec<&String> = ring.lines().collect();
    assert_eq!(lines, vec![&"one".to_string(), &"two".to_string()]);
}

#[test]
fn a_ring_without_room_keeps_the_latest_line() {
    let mut ring = LogRing::new(0);
    ring.push("one".into());
    ring.push("two".into());
    let lines: Vec<&String> = ring.lines().collect();
    assert_eq!(lines, vec![&"two".to_string()]);
}

fn conn(id: u64, kind: ConnKind) -> ConnInfo {
    ConnInfo {
        id,
        src: SocketAddr::new(IpAddr::V4(Ipv4Addr::new(10, 0, 0, 1)), 4000),
        target: "example.com:443".into(),
        kind,
        up: 1,
        down: 2,
    }
}

#[test]
fn connections_are_sorted_by_id() {
    let sorted = sort_connections(vec![
        conn(3, ConnKind::Connect),
        conn(1, ConnKind::Udp),
        conn(2, ConnKind::Connect),
        conn(1, ConnKind::Connect),
    ]);
    let ids: Vec<(u64, ConnKind)> = sorted.iter().map(|c| (c.id, c.kind)).collect();
    assert_eq!(
        ids,
        vec![
            (1, ConnKind::Udp),
            (1, ConnKind::Connect),
            (2, ConnKind::Connect),
            (3, ConnKind::Connect)
        ]
    );
}

#[test]
fn samples_differ_by_what_was_transferred() {
    let last = Snapshot {
        bytes_up: 10,
        bytes_down: 50,
        ..Snapshot::default()
    };
    let now = Snapshot {
        bytes_up: 25,
        bytes_down: 40,
        ..Snapshot::default()
    };
    assert_eq!(transferred(&last, &now), (15, 0));
}

#[test]
fn the_dashboard_takes_samples_in() {
    let first = Snapshot {
        bytes_up: 100,
        bytes_down: 200,
        ..Snapshot::default()
    };
    let mut state = DashboardState::new(Some("a".into()), first);
    assert_eq!(state.snapshot, Snapshot::default());
    let second = Snapshot {
        bytes_up: 150,
        bytes_down: 260,
        ..Snapshot::default()
    };
    state.sample(
        second,
        vec![conn(2, ConnKind::Connect), conn(1, ConnKind::Udp)],
    );
    assert_eq!((state.up_delta, state.down_delta), (50, 60));
    assert_eq!(state.snapshot, second);
    assert_eq!(state.connections[0].id, 1);
    state.sample(second, vec![]);
    assert_eq!((state.up_delta, state.down_delta), (0, 0));
    assert!(state.connections.is_empty());
}

#[test]
fn events_and_lag_are_logged() {
    let mut log = LogRing::new(10);
    assert!(drain_events(&mut log, BusRead::Line("hello".into())));
    assert!(drain_events(&mut log, BusRead::Lagged(17)));
    assert!(!drain_events(&mut log, BusRead::Empty));
    assert!(!drain_events(&mut log, BusRead::Closed));
    let lines: Vec<&String> = log.lines().collect();
    assert_eq!(lines, vec!["hello", "(log lagged, dropped 17 events)"]);
}

#[test]
fn q_and_ctrl_c_quit() {
    assert_eq!(key_action(true, Some('q'), false), Some(KeyAction::Quit));
    assert_eq!(key_action(true, Some('c'), true), Some(KeyAction::Quit));
    assert_eq!(key_action(true, Some('c'), false), None);
    assert_eq!(key_action(false, Some('q'), false), None);
    assert_eq!(key_action(true, None, true), None);
}

#[test]
fn titles() {
    assert_eq!(
        title(&Some("0.0.0.0:1080".into())),
        " next-socks5  -  listening on 0.0.0.0:1080  (press q to quit) "
    );
    assert_eq!(title(&None), " next-socks5  (press q to quit) ");
    assert_eq!(connections_title(12), "Active connections (12)");
}

#[test]
fn rows() {
    let row = connection_row(&conn(7, ConnKind::Udp));
    assert_eq!(row.id, "7");
    assert_eq!(row.src, "10.0.0.1:4000");
    assert_eq!(row.target, "example.com:443");
    assert_eq!(row.kind, "UDP");
    assert_eq!(connection_row(&conn(7, ConnKind::Connect)).kind, "CONNECT");
}

#[test]
fn stats() {
    let snapshot = Snapshot {
        total_conns: 9,
        active_conns: 2,
        successes: 5,
        failures: 4,
        error_codes: [0, 1, 2, 3, 4, 5, 6, 7, 8],
        ..Snapshot::default()
    };
    let (totals, low, high) = stats_lines(&snapshot);
    assert_eq!(totals, "conns total=9  active=2  ok=5  fail=4");
    assert_eq!(
        low,
        "0x01 general=1   0x02 ruleset=2   0x03 netunreach=3   0x04 hostunreach=4"
    );
    assert_eq!(
        high,
        "0x05 connrefused=5   0x06 ttl=6   0x07 badcmd=7   0x08 badatyp=8"
    );
}

#[test]
fn units() {
    assert_eq!(byte_unit(0), ByteUnit::B);
    assert_eq!(byte_unit(1023), ByteUnit::B);
    assert_eq!(byte_unit(1024), ByteUnit::Kb);
    assert_eq!(byte_unit(1024 * 1024 - 1), ByteUnit::Kb);
    assert_eq!(byte_unit(1024 * 1024), ByteUnit::Mb);
    assert_eq!(byte_unit(1 << 30), ByteUnit::Gb);
}

#[test]
fn the_log_panel_shows_the_tail() {
    assert_eq!(log_start(10, 6), 6);
    assert_eq!(log_start(3, 6), 0);
    assert_eq!(log_start(3, 0), 2);
    assert_eq!(log_start(3, 3), 2);
    assert_eq!(log_start(0, 1), 0);
}
