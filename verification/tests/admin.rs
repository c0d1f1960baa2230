use next_socks5::admin::client::{attach, decode_loop, AttachError, DecodeStep, RemoteState};
use next_socks5::admin::frame::{
    read_frame, write_frame, Frame, FrameError, FrameRead, MAX_FRAME_LEN, PROTO_VERSION,
};
use next_socks5::admin::ring::{BusRead, EventRing, ADMIN_EVENT_RING_CAPACITY};
use next_socks5::admin::server::{
    already_running, claim_socket, handle_client, lock_failure, lock_path_for, opening_frames,
    socket_is_live, unlink_if_socket, ClaimError, ClaimStep, ClientInput, ClientOutput, PathEntry,
    StepOutcome, Unlink,
};
use next_socks5::error::{IoErrorKind, IoFailure};
use next_socks5::metrics::{ConnInfo, ConnKind, Event, Snapshot};
use next_socks5::net::{IpAddr, Ipv4Addr, SocketAddr};

#[test]
fn evicts_oldest_at_capacity() {
    let mut ring = EventRing::new();
    for i in 0..(ADMIN_EVENT_RING_CAPACITY as u64 + 5) {
        ring.push(Event::Closed { id: i });
    }
    let snap = ring.snapshot();
    assert_eq!(snap.len(), ADMIN_EVENT_RING_CAPACITY);
    // Oldest 5 evicted: first retained id is 5.
    assert!(matches!(snap.first(), Some(Event::Closed { id: 5 })));
}

#[test]
fn a_ring_replays_in_order() {
    let mut ring = EventRing::default();
    ring.push(Event::Log("one".into()));
    ring.push(Event::Log("two".into()));
    assert_eq!(
        ring.snapshot(),
        vec![Event::Log("one".into()), Event::Log("two".into())]
    );
}

#[test]
fn a_ring_is_filled_from_the_bus() {
    let mut ring = EventRing::new();
    assert!(ring.fill(BusRead::Event(Event::Closed { id: 1 })));
    assert!(ring.fill(BusRead::Lagged));
    assert!(ring.fill(BusRead::Event(Event::Closed { id: 2 })));
    assert!(!ring.fill(BusRead::Closed));
    assert_eq!(ring.snapshot().len(), 2);
}

#[test]
fn frames_carry_their_length() {
    assert_eq!(write_frame(b"abc").unwrap(), vec![0, 0, 0, 3, b'a', b'b', b'c']);
    assert_eq!(write_frame(b"").unwrap(), vec![0, 0, 0, 0]);
}

#[test]
fn frames_are_read_back_byte_by_byte() {
    let mut stream = write_frame(b"hello").unwrap();
    stream.extend_from_slice(b"more");
    assert_eq!(read_frame(&stream[..0]), Ok(FrameRead::Need(4)));
    assert_eq!(read_frame(&stream[..3]), Ok(FrameRead::Need(1)));
    assert_eq!(read_frame(&stream[..4]), Ok(FrameRead::Need(5)));
    assert_eq!(read_frame(&stream[..8]), Ok(FrameRead::Need(1)));
    assert_eq!(read_frame(&stream[..9]), Ok(FrameRead::Body(b"hello")));
    assert_eq!(read_frame(&stream), Ok(FrameRead::Body(b"hello")));
}

#[test]
fn an_oversized_length_prefix_is_rejected() {
    // A length prefix above MAX_FRAME_LEN must be rejected before allocating.
    let mut bytes = (MAX_FRAME_LEN + 1).to_be_bytes().to_vec();
    bytes.extend_from_slice(&[0u8; 8]);
    assert_eq!(
        read_frame(&bytes),
        Err(FrameError::TooLarge(MAX_FRAME_LEN + 1))
    );
}

#[test]
fn an_oversized_body_is_not_written() {
    let body = vec![7u8; MAX_FRAME_LEN as usize + 1];
    assert_eq!(
        write_frame(&body),
        Err(FrameError::TooLarge(MAX_FRAME_LEN + 1))
    );
    let body = vec![7u8; MAX_FRAME_LEN as usize];
    let frame = write_frame(&body).unwrap();
    assert_eq!(frame.len(), body.len() + 4);
    assert_eq!(read_frame(&frame), Ok(FrameRead::Body(&body[..])));
}

#[test]
fn frame_errors_have_words() {
    assert_eq!(
        FrameError::TooLarge(1048577).message(),
        "frame too large: 1048577 bytes (max 1048576)"
    );
    assert_eq!(FrameError::Io("gone".into()).message(), "io error: gone");
    assert_eq!(
        FrameError::Decode("bad".into()).message(),
        "decode error: bad"
    );
}

fn info() -> ConnInfo {
    ConnInfo {
        id: 1,
        src: SocketAddr::new(IpAddr::V4(Ipv4Addr::localhost()), 1080),
        target: "x:80".into(),
        kind: ConnKind::Connect,
        up: 1,
        down: 2,
    }
}

#[test]
fn stats_are_kept_and_events_forwarded() {
    let mut state = RemoteState::new();
    assert_eq!(state.snapshot(), Snapshot::default());
    let snapshot = Snapshot {
        total_conns: 42,
        ..Default::default()
    };
    let stats = Frame::Stats {
        snapshot,
        connections: vec![info()],
    };
    assert_eq!(decode_loop(&mut state, Ok(stats)), DecodeStep::Continue);
    assert_eq!(state.snapshot().total_conns, 42);
    assert_eq!(state.connections(), vec![info()]);

    let event = Frame::Event(Event::Closed { id: 1 });
    assert_eq!(
        decode_loop(&mut state, Ok(event)),
        DecodeStep::Forward(Event::Closed { id: 1 })
    );
    // A Hello in mid-stream is ignored.
    let hello = Frame::Hello {
        proto: 9,
        listen_addr: None,
    };
    assert_eq!(decode_loop(&mut state, Ok(hello)), DecodeStep::Continue);
    // The end of the stream is a terminating condition.
    assert_eq!(
        decode_loop(&mut state, Err(FrameError::Io("eof".into()))),
        DecodeStep::Lost
    );
    assert_eq!(state.snapshot().total_conns, 42);
}

#[test]
fn the_handshake_is_validated() {
    assert_eq!(
        attach(Frame::Hello {
            proto: PROTO_VERSION,
            listen_addr: Some("127.0.0.1:1080".into())
        }),
        Ok(Some("127.0.0.1:1080".into()))
    );
    assert_eq!(
        attach(Frame::Hello {
            proto: 2,
            listen_addr: None
        }),
        Err(AttachError::Version(2))
    );
    assert_eq!(
        attach(Frame::Event(Event::Closed { id: 1 })),
        Err(AttachError::NotHello)
    );
}

#[test]
fn clients_get_hello_then_the_replay() {
    let frames = opening_frames(
        Some("addr".into()),
        vec![Event::Closed { id: 1 }, Event::Closed { id: 2 }],
    );
    assert_eq!(
        frames,
        vec![
            Frame::Hello {
                proto: 1,
                listen_addr: Some("addr".into())
            },
            Frame::Event(Event::Closed { id: 1 }),
            Frame::Event(Event::Closed { id: 2 }),
        ]
    );
}

#[test]
fn clients_get_stats_and_live_events() {
    assert_eq!(
        handle_client(ClientInput::Tick(Snapshot::default(), vec![info()])),
        ClientOutput::Write(Frame::Stats {
            snapshot: Snapshot::default(),
            connections: vec![info()]
        })
    );
    assert_eq!(
        handle_client(ClientInput::Event(Event::Closed { id: 5 })),
        ClientOutput::Write(Frame::Event(Event::Closed { id: 5 }))
    );
    assert_eq!(handle_client(ClientInput::Lagged), ClientOutput::Skip);
    assert_eq!(handle_client(ClientInput::Closed), ClientOutput::End);
    assert_eq!(handle_client(ClientInput::Stop), ClientOutput::End);
}

#[test]
fn a_stale_socket_is_claimed_step_by_step() {
    let refused = StepOutcome::Failed(IoErrorKind::ConnectionRefused);
    let missing = StepOutcome::Failed(IoErrorKind::NotFound);
    let walk = [
        (ClaimStep::EnsureParent, StepOutcome::Done, ClaimStep::Probe),
        (ClaimStep::Probe, refused, ClaimStep::Lock),
        (ClaimStep::Lock, StepOutcome::Done, ClaimStep::Reprobe),
        (ClaimStep::Reprobe, missing, ClaimStep::Unlink),
        (ClaimStep::Unlink, StepOutcome::Done, ClaimStep::Bind),
        (ClaimStep::Bind, StepOutcome::Done, ClaimStep::Restrict),
        (ClaimStep::Restrict, StepOutcome::Done, ClaimStep::Claimed),
    ];
    for (step, outcome, next) in walk {
        assert_eq!(claim_socket(step, outcome), Ok(next));
    }
}

#[test]
fn a_live_socket_is_left_alone() {
    assert_eq!(
        claim_socket(ClaimStep::Probe, StepOutcome::Done),
        Err(ClaimError::AlreadyRunning)
    );
    assert_eq!(
        claim_socket(ClaimStep::Reprobe, StepOutcome::Done),
        Err(ClaimError::AlreadyRunning)
    );
    assert_eq!(socket_is_live(StepOutcome::Done), Ok(true));
}

#[test]
fn unknown_failures_stop_the_claim() {
    let denied = StepOutcome::Failed(IoErrorKind::PermissionDenied);
    for step in [
        ClaimStep::EnsureParent,
        ClaimStep::Probe,
        ClaimStep::Lock,
        ClaimStep::Reprobe,
        ClaimStep::Unlink,
        ClaimStep::Bind,
        ClaimStep::Restrict,
    ] {
        assert_eq!(claim_socket(step, denied), Err(ClaimError::StepFailed));
    }
}

#[test]
fn only_sockets_are_unlinked() {
    assert_eq!(unlink_if_socket("/run/x", PathEntry::Socket), Unlink::Remove);
    assert_eq!(unlink_if_socket("/run/x", PathEntry::Missing), Unlink::Nothing);
    assert_eq!(
        unlink_if_socket("/run/x", PathEntry::Other),
        Unlink::Refuse(IoFailure {
            kind: IoErrorKind::AlreadyExists,
            message: "/run/x exists and is not a socket".into()
        })
    );
}

#[test]
fn claim_failures_have_words() {
    assert_eq!(lock_path_for("/run/a.sock"), "/run/a.sock.lock");
    let running = already_running("/run/a.sock");
    assert_eq!(running.kind, IoErrorKind::AddrInUse);
    assert_eq!(
        running.message,
        "admin socket /run/a.sock is already served by a live next-socks5 instance"
    );
    assert_eq!(
        lock_failure("/run/a.sock.lock", IoErrorKind::WouldBlock),
        Some(IoFailure {
            kind: IoErrorKind::WouldBlock,
            message: "another next-socks5 instance already holds /run/a.sock.lock".into()
        })
    );
    assert_eq!(lock_failure("/x", IoErrorKind::Other), None);
}
