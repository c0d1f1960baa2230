use next_socks5::config::{AdvertiseHost, AuthConfig, AuthMethod, Egress, PortRange, User};
use next_socks5::error::{IoErrorKind, IoFailure, Socks5Error};
use next_socks5::metrics::{ConnKind, Event, Metrics};
use next_socks5::net::{IpAddr, Ipv4Addr, Ipv6Addr, SocketAddr};
use next_socks5::protocol::address::Address;
use next_socks5::protocol::reply::failure_reply;
use next_socks5::protocol::request::{Command, Request};
use next_socks5::protocol::udp::{decap, encap};
use next_socks5::server::accept::{accept, accept_failed, stop_requested, Accepted};
use next_socks5::server::admission::Admission;
use next_socks5::server::association::{
    account_delivered, account_sent, turn, Association, Input as AssociationInput,
    Output as AssociationOutput, Turn, Wake,
};
use next_socks5::server::connect::{
    address_to_string, bind_address, dial_timeout, failure_message, failure_of, route,
    EstablishError, Route,
};
use next_socks5::server::connection::{dispatch, Dispatch, Negotiation, Next};
use next_socks5::server::establish::{Dialer, Family, Search};
use next_socks5::server::relay::{CopyStep, Direction, ReadOutcome, TcpRelay, WriteOutcome};
use next_socks5::server::session::{ConnectSession, Input, Output};
use next_socks5::server::udp::{
    advertise_answer, advertise_plan, bind_retries, relay_bind_ip, Advertise, BindStep, PortScan,
    RelayBind, UdpAction, UdpRelay, SECOND,
};

fn ip(n: u8) -> IpAddr {
    IpAddr::V4(Ipv4Addr::new(127, 0, 0, n))
}

fn public(n: u8, port: u16) -> SocketAddr {
    SocketAddr::new(IpAddr::V4(Ipv4Addr::new(93, 184, 216, n)), port)
}

// Admission.

#[test]
fn unlimited_admits_everything() {
    let mut a = Admission::new(None, None);
    let permits: Vec<_> = (0..100).filter_map(|_| a.try_admit(ip(1))).collect();
    assert_eq!(permits.len(), 100);
}

#[test]
fn global_cap_enforced_and_released() {
    let mut a = Admission::new(Some(2), None);
    let p1 = a.try_admit(ip(1)).unwrap();
    let _p2 = a.try_admit(ip(2)).unwrap();
    assert!(a.try_admit(ip(3)).is_none(), "third over the global cap");
    a.release(p1);
    assert!(a.try_admit(ip(3)).is_some(), "slot freed after drop");
}

#[test]
fn per_ip_cap_enforced_independently() {
    let mut a = Admission::new(None, Some(1));
    let _p1 = a.try_admit(ip(1)).unwrap();
    assert!(a.try_admit(ip(1)).is_none(), "second from same IP blocked");
    // A different IP is unaffected.
    assert!(a.try_admit(ip(2)).is_some());
}

#[test]
fn per_ip_count_removed_when_zero() {
    let mut a = Admission::new(None, Some(1));
    let p = a.try_admit(ip(1)).unwrap();
    a.release(p);
    // The entry is gone, so a fresh connection from that IP is admitted.
    assert!(a.try_admit(ip(1)).is_some());
}

#[test]
fn ipv6_sources_have_caps_of_their_own() {
    let mut a = Admission::new(None, Some(1));
    let six = IpAddr::V6(Ipv6Addr { bits: 0x7f00_0001 });
    let p = a.try_admit(six).unwrap();
    assert_eq!(p.ip(), six);
    assert!(a.try_admit(six).is_none());
    assert!(a.try_admit(ip(1)).is_some());
    a.release(p);
    assert!(a.try_admit(six).is_some());
}

#[test]
fn one_cap_works_without_the_other() {
    let mut a = Admission::new(Some(2), None);
    let p = a.try_admit(ip(1)).unwrap();
    assert!(a.try_admit(ip(1)).is_some());
    assert!(a.try_admit(ip(2)).is_none());
    a.release(p);
    assert!(a.try_admit(ip(2)).is_some());
    let mut a = Admission::new(None, None);
    let p = a.try_admit(ip(1)).unwrap();
    a.release(p);
    assert!(a.try_admit(ip(1)).is_some());
}

#[test]
fn a_cap_of_zero_admits_nothing() {
    assert!(Admission::new(Some(0), None).try_admit(ip(1)).is_none());
    assert!(Admission::new(None, Some(0)).try_admit(ip(1)).is_none());
}

#[test]
fn sockets_over_the_limit_are_rejected_with_an_event() {
    let mut a = Admission::new(Some(1), None);
    let peer = SocketAddr::new(ip(9), 5000);
    assert!(matches!(accept(&mut a, peer), Accepted::Serve(_)));
    assert_eq!(
        accept(&mut a, peer),
        Accepted::Reject(Event::Log(
            "connection from 127.0.0.9:5000 rejected: limit reached".into()
        ))
    );
    assert_eq!(
        accept_failed("too many open files"),
        Event::Log("accept error: too many open files".into())
    );
    assert!(stop_requested(true, false));
    assert!(stop_requested(false, true));
    assert!(!stop_requested(false, false));
}

// Negotiation.

fn open_auth() -> AuthConfig {
    AuthConfig {
        method: AuthMethod::NoAuth,
        users: vec![],
    }
}

fn password_auth() -> AuthConfig {
    AuthConfig {
        method: AuthMethod::Password,
        users: vec![User {
            username: "alice".into(),
            password: "secret".into(),
        }],
    }
}

struct Talk {
    replies: Vec<u8>,
    events: Vec<Event>,
    served: Option<(Request, Vec<u8>)>,
    closed: bool,
}

/// Feed `chunks` one by one, taking every step that the bytes at hand allow.
fn negotiate(auth: &AuthConfig, chunks: &[&[u8]]) -> Talk {
    let mut n = Negotiation::new();
    let mut talk = Talk {
        replies: vec![],
        events: vec![],
        served: None,
        closed: false,
    };
    for chunk in chunks {
        if talk.closed {
            break;
        }
        if let Some((_, tail)) = &mut talk.served {
            tail.extend_from_slice(chunk);
            continue;
        }
        n.feed(chunk);
        loop {
            let step = n.advance(auth);
            talk.events.extend(step.announce);
            talk.replies.extend(step.reply);
            talk.events.extend(step.report);
            match step.next {
                Next::Continue => {}
                Next::Read => break,
                Next::Close => {
                    talk.closed = true;
                    break;
                }
                Next::Serve(request, tail) => {
                    talk.served = Some((request, tail));
                    break;
                }
            }
        }
    }
    talk
}

const CONNECT: [u8; 10] = [0x05, 0x01, 0x00, 0x01, 1, 2, 3, 4, 0x00, 0x50];

#[test]
fn pipelined_bytes_are_served_with_the_request() {
    let mut bytes = vec![0x05, 0x01, 0x00];
    bytes.extend_from_slice(&CONNECT);
    bytes.extend_from_slice(b"GET /");
    let talk = negotiate(&open_auth(), &[&bytes]);
    assert_eq!(talk.replies, vec![0x05, 0x00]);
    let (request, tail) = talk.served.unwrap();
    assert_eq!(request.command, Command::Connect);
    assert_eq!(request.address, Address::V4(Ipv4Addr::new(1, 2, 3, 4), 80));
    assert_eq!(tail, b"GET /");
}

#[test]
fn reads_may_be_cut_into_single_bytes() {
    let mut bytes = vec![0x05, 0x02, 0x00, 0x02];
    bytes.extend_from_slice(b"\x01\x05alice\x06secret");
    bytes.extend_from_slice(&CONNECT);
    bytes.extend_from_slice(b"payload");
    let whole = negotiate(&password_auth(), &[&bytes]);
    let chunks: Vec<&[u8]> = bytes.chunks(1).collect();
    let cut = negotiate(&password_auth(), &chunks);
    assert_eq!(whole.replies, vec![0x05, 0x02, 0x01, 0x00]);
    assert_eq!(whole.replies, cut.replies);
    assert_eq!(
        whole.events,
        vec![Event::Auth {
            ok: true,
            user: "alice".into()
        }]
    );
    assert_eq!(whole.events, cut.events);
    assert_eq!(whole.served, cut.served);
    assert_eq!(cut.served.unwrap().1, b"payload");
}

#[test]
fn wrong_credentials_are_refused() {
    let mut bytes = vec![0x05, 0x01, 0x02];
    bytes.extend_from_slice(b"\x01\x05alice\x05wrong");
    bytes.extend_from_slice(&CONNECT);
    let talk = negotiate(&password_auth(), &[&bytes]);
    assert_eq!(talk.replies, vec![0x05, 0x02, 0x01, 0x01]);
    assert_eq!(
        talk.events,
        vec![Event::Auth {
            ok: false,
            user: "alice".into()
        }]
    );
    assert!(talk.closed && talk.served.is_none());
}

#[test]
fn malformed_auth_gets_a_failure_reply() {
    let talk = negotiate(&password_auth(), &[&[0x05, 0x01, 0x02, 0x07, 0x00]]);
    assert_eq!(talk.replies, vec![0x05, 0x02, 0x01, 0x01]);
    assert!(talk.closed);
}

#[test]
fn an_unacceptable_greeting_is_closed() {
    let talk = negotiate(&password_auth(), &[&[0x05, 0x01, 0x00]]);
    assert_eq!(talk.replies, vec![0x05, 0xFF]);
    assert!(talk.closed);
    let talk = negotiate(&open_auth(), &[&[0x04, 0x01, 0x00]]);
    assert!(talk.replies.is_empty() && talk.closed);
}

#[test]
fn malformed_requests_get_their_reply_code() {
    let cases: [(&[u8], u8); 3] = [
        (&[0x05, 0x09, 0x00, 0x01], 0x07),
        (&[0x05, 0x01, 0x00, 0x09], 0x08),
        (&[0x05, 0x01, 0x00, 0x03, 1, 0xff, 0, 80], 0x01),
    ];
    for (request, code) in cases {
        let talk = negotiate(&open_auth(), &[&[0x05, 0x01, 0x00], request]);
        assert_eq!(
            talk.replies,
            vec![0x05, 0x00, 0x05, code, 0, 1, 0, 0, 0, 0, 0, 0]
        );
        assert_eq!(
            talk.events,
            vec![Event::Error {
                code,
                msg: "malformed request".into()
            }]
        );
        assert!(talk.closed);
    }
    // A bad version has no reply.
    let talk = negotiate(&open_auth(), &[&[0x05, 0x01, 0x00], &[0x04, 0x01, 0, 1]]);
    assert_eq!(talk.replies, vec![0x05, 0x00]);
    assert!(talk.closed);
}

#[test]
fn commands_are_dispatched() {
    let address = Address::Domain("example.com".into(), 80);
    let request = |command| Request {
        command,
        address: address.clone(),
    };
    assert_eq!(
        dispatch(request(Command::Connect)),
        Dispatch::Connect(address.clone())
    );
    assert_eq!(
        dispatch(request(Command::UdpAssociate)),
        Dispatch::UdpAssociate
    );
    assert_eq!(
        dispatch(request(Command::Bind)),
        Dispatch::Refuse(
            vec![0x05, 0x07, 0x00, 0x01, 0, 0, 0, 0, 0, 0],
            Event::Error {
                code: 7,
                msg: "BIND not supported".into()
            }
        )
    );
}

// CONNECT.

#[test]
fn literal_targets_obey_the_egress_policy() {
    let secure = Egress::default();
    let loopback = Address::V4(Ipv4Addr::localhost(), 80);
    assert_eq!(route(&loopback, &secure), Route::Blocked);
    assert_eq!(
        route(&loopback, &Egress::permissive()),
        Route::Dial(SocketAddr::new(ip(1), 80))
    );
    let v6 = Address::V6(Ipv6Addr { bits: 0x2600 << 112 }, 443);
    assert_eq!(
        route(&v6, &secure),
        Route::Dial(SocketAddr::new(IpAddr::V6(Ipv6Addr { bits: 0x2600 << 112 }), 443))
    );
    assert_eq!(
        route(&Address::Domain("localhost".into(), 80), &secure),
        Route::Resolve
    );
}

#[test]
fn targets_are_shown_as_host_and_port() {
    assert_eq!(
        address_to_string(&Address::V4(Ipv4Addr::new(1, 2, 3, 4), 80)),
        "1.2.3.4:80"
    );
    assert_eq!(
        address_to_string(&Address::V6(Ipv6Addr::localhost(), 443)),
        "[::1]:443"
    );
    assert_eq!(
        address_to_string(&Address::Domain("example.com".into(), 8080)),
        "example.com:8080"
    );
}

#[test]
fn bound_addresses() {
    assert_eq!(
        bind_address(Some(SocketAddr::new(ip(1), 7))),
        Address::V4(Ipv4Addr::localhost(), 7)
    );
    assert_eq!(bind_address(None), Address::V4(Ipv4Addr::unspecified(), 0));
}

fn refused_by_peer() -> IoFailure {
    IoFailure {
        kind: IoErrorKind::ConnectionRefused,
        message: "refused".into(),
    }
}

#[test]
fn failures_have_their_code_and_words() {
    let target = Address::Domain("example.com".into(), 80);
    let dns = EstablishError::Dns("nope".into());
    assert_eq!(failure_of(&dns), Socks5Error::HostUnreachable);
    assert_eq!(
        failure_message(&target, &dns, 12),
        "could not resolve example.com:80: nope"
    );
    assert_eq!(failure_of(&EstablishError::Blocked), Socks5Error::NotAllowed);
    assert_eq!(
        failure_message(&target, &EstablishError::Blocked, 12),
        "destination not allowed: example.com:80"
    );
    let dial = EstablishError::Dial(refused_by_peer());
    assert_eq!(failure_of(&dial), Socks5Error::ConnectionRefused);
    assert_eq!(
        failure_message(&target, &dial, 12),
        "connect to example.com:80 failed after 12 ms: refused"
    );
    assert_eq!(
        dial_timeout(SocketAddr::new(ip(1), 80)),
        IoFailure {
            kind: IoErrorKind::TimedOut,
            message: "connect to 127.0.0.1:80 timed out".into()
        }
    );
}

fn session(initial_len: u64) -> ConnectSession {
    ConnectSession::new(
        SocketAddr::new(ip(1), 9),
        Address::Domain("t".into(), 1),
        initial_len,
    )
}

fn connect_event() -> Event {
    Event::Connect {
        id: 1,
        src: SocketAddr::new(ip(1), 9),
        target: "t:1".into(),
        kind: ConnKind::Connect,
    }
}

#[test]
fn a_request_is_served_from_reply_to_close() {
    let mut m = Metrics::new();
    let mut s = session(5);
    let local = Some(SocketAddr::new(ip(7), 258));
    assert_eq!(
        s.next(&mut m, Input::Established(local)),
        Output::Reply(vec![0x05, 0x00, 0x00, 0x01, 127, 0, 0, 7, 1, 2])
    );
    // It is not registered before the reply is written.
    assert_eq!(m.active(), 0);
    assert_eq!(
        s.next(&mut m, Input::Replied(true)),
        Output::SendInitial(connect_event())
    );
    assert_eq!(m.active(), 1);
    assert_eq!(s.next(&mut m, Input::InitialSent(true)), Output::Relay(None));
    assert_eq!(m.connections()[0].up, 5);
    assert_eq!(
        s.next(&mut m, Input::RelayEnded),
        Output::Finish(Event::Closed { id: 1 })
    );
    assert_eq!((m.active(), m.snapshot().successes), (0, 1));
    assert!(m.connections().is_empty());
    assert_eq!(s.next(&mut m, Input::RelayEnded), Output::End);
}

#[test]
fn a_request_without_payload_is_relayed_at_once() {
    let mut m = Metrics::new();
    let mut s = session(0);
    assert_eq!(
        s.next(&mut m, Input::Established(None)),
        Output::Reply(vec![0x05, 0x00, 0x00, 0x01, 0, 0, 0, 0, 0, 0])
    );
    assert_eq!(
        s.next(&mut m, Input::Replied(true)),
        Output::Relay(Some(connect_event()))
    );
}

#[test]
fn a_request_whose_payload_is_not_sent_is_closed() {
    let mut m = Metrics::new();
    let mut s = session(5);
    s.next(&mut m, Input::Established(None));
    s.next(&mut m, Input::Replied(true));
    assert_eq!(
        s.next(&mut m, Input::InitialSent(false)),
        Output::Finish(Event::Closed { id: 1 })
    );
    assert_eq!((m.active(), m.snapshot().bytes_up), (0, 0));
}

#[test]
fn a_request_whose_reply_is_not_written_leaves_no_trace() {
    let mut m = Metrics::new();
    let mut s = session(5);
    s.next(&mut m, Input::Established(None));
    assert_eq!(s.next(&mut m, Input::Replied(false)), Output::End);
    assert_eq!(m.snapshot().total_conns, 0);
}

#[test]
fn a_refused_request_is_answered_counted_and_reported() {
    let mut m = Metrics::new();
    let mut s = session(0);
    let error = EstablishError::Dial(refused_by_peer());
    assert_eq!(
        s.next(&mut m, Input::NotEstablished(error, 30)),
        Output::Reply(vec![0x05, 0x05, 0x00, 0x01, 0, 0, 0, 0, 0, 0])
    );
    assert_eq!(
        s.next(&mut m, Input::Replied(false)),
        Output::Finish(Event::Error {
            code: 5,
            msg: "connect to t:1 failed after 30 ms: refused".into()
        })
    );
    assert_eq!(m.snapshot().failures, 1);
    assert_eq!(m.snapshot().error_codes[5], 1);
}

#[test]
fn an_idle_direction_waits_for_the_other() {
    let mut m = Metrics::new();
    let id = m.register(SocketAddr::new(ip(1), 9), "t:1".into(), ConnKind::Connect);
    let mut r = TcpRelay::new(id, 300, 0);
    assert_eq!(
        r.read(Direction::Down, ReadOutcome::Bytes(9), 200),
        CopyStep::Forward(9)
    );
    assert!(r.written(&mut m, Direction::Down, 9, WriteOutcome::Done, 200));
    // The upload has been idle for its window, the download has not.
    assert_eq!(
        r.read(Direction::Up, ReadOutcome::Idle, 499),
        CopyStep::KeepReading
    );
    assert_eq!(
        r.read(Direction::Up, ReadOutcome::Idle, 500),
        CopyStep::HalfClose
    );
    assert_eq!(r.result(), None);
    assert_eq!(
        r.read(Direction::Down, ReadOutcome::Bytes(0), 600),
        CopyStep::HalfClose
    );
    assert_eq!(r.result(), Some(Ok(())));
    assert_eq!(m.connections()[0].down, 9);
}

fn reset_by_peer() -> IoFailure {
    IoFailure {
        kind: IoErrorKind::Other,
        message: "reset".into(),
    }
}

fn stuck_write() -> IoFailure {
    IoFailure {
        kind: IoErrorKind::TimedOut,
        message: "relay write timed out (peer not draining)".into(),
    }
}

#[test]
fn the_error_of_the_upload_comes_first() {
    let mut m = Metrics::new();
    let mut r = TcpRelay::new(1, 300, 0);
    assert!(!r.written(&mut m, Direction::Down, 4, WriteOutcome::Stuck, 1));
    assert_eq!(r.result(), None);
    assert_eq!(
        r.read(Direction::Up, ReadOutcome::Failed(reset_by_peer()), 2),
        CopyStep::Stop
    );
    assert_eq!(r.result(), Some(Err(reset_by_peer())));
    assert_eq!(m.snapshot().bytes_down, 0);
}

#[test]
fn a_stuck_write_is_a_timeout() {
    let mut m = Metrics::new();
    let mut r = TcpRelay::new(1, 300, 0);
    assert_eq!(
        r.read(Direction::Up, ReadOutcome::Bytes(0), 1),
        CopyStep::HalfClose
    );
    assert!(!r.written(&mut m, Direction::Down, 4, WriteOutcome::Stuck, 2));
    assert_eq!(r.result(), Some(Err(stuck_write())));
}

#[test]
fn a_failed_write_keeps_its_error_and_counts_nothing() {
    let mut m = Metrics::new();
    let mut r = TcpRelay::new(1, 300, 0);
    assert!(r.written(&mut m, Direction::Up, 3, WriteOutcome::Done, 1));
    let write = WriteOutcome::Failed(refused_by_peer());
    assert!(!r.written(&mut m, Direction::Up, 4, write, 2));
    r.read(Direction::Down, ReadOutcome::Bytes(0), 3);
    assert_eq!(r.result(), Some(Err(refused_by_peer())));
    assert_eq!((m.snapshot().bytes_up, m.snapshot().bytes_down), (3, 0));
}

// The search for a connection.

#[test]
fn a_refused_candidate_does_not_end_the_search() {
    let mut d = Dialer::new(Egress::permissive(), 1000);
    assert_eq!(d.next(0, 0), Search::Wait);
    d.answered(Family::V4, Ok(vec![public(1, 80)]), 0);
    // A lone candidate gets all of the time.
    assert_eq!(d.next(0, 0), Search::Dial(public(1, 80), 1000));
    assert_eq!(d.next(0, 0), Search::Wait);
    d.attempt_failed(refused_by_peer());
    // The other family is still being looked up.
    assert_eq!(d.next(100, 0), Search::Wait);
    d.answered(Family::V6, Ok(vec![public(1, 80), public(2, 80)]), 200);
    // The address that was dialed already is not dialed again.
    assert_eq!(d.next(200, 0), Search::Dial(public(2, 80), 1000));
    d.attempt_failed(refused_by_peer());
    assert_eq!(d.next(300, 0), Search::Fail(EstablishError::Dial(refused_by_peer())));
}

#[test]
fn candidates_share_the_remaining_time() {
    let mut d = Dialer::new(Egress::permissive(), 1000);
    d.answered(
        Family::V4,
        Ok(vec![public(1, 80), public(2, 80), public(3, 80), public(4, 80)]),
        200,
    );
    assert_eq!(d.next(200, 0), Search::Dial(public(1, 80), 400));
    d.attempt_timed_out();
    assert_eq!(d.next(400, 0), Search::Dial(public(2, 80), 600));
    d.attempt_timed_out();
    assert_eq!(d.next(600, 0), Search::Dial(public(3, 80), 800));
}

#[test]
fn a_late_answer_shortens_the_attempt_under_way() {
    let mut d = Dialer::new(Egress::permissive(), 1000);
    d.answered(Family::V4, Ok(vec![public(1, 80)]), 0);
    assert_eq!(d.next(0, 0), Search::Dial(public(1, 80), 1000));
    d.answered(Family::V6, Ok(vec![public(2, 80)]), 200);
    d.attempt_timed_out();
    assert_eq!(d.next(600, 0), Search::Dial(public(2, 80), 1000));
    d.attempt_timed_out();
    assert_eq!(
        d.next(1000, 0),
        Search::Fail(EstablishError::Dial(IoFailure {
            kind: IoErrorKind::TimedOut,
            message: "connection attempt timed out".into()
        }))
    );
}

#[test]
fn blocked_answers_are_skipped() {
    let mut d = Dialer::new(Egress::default(), 1000);
    d.answered(Family::V4, Ok(vec![SocketAddr::new(ip(1), 80)]), 0);
    assert_eq!(d.next(0, 0), Search::Wait);
    d.answered(Family::V6, Err("none".into()), 0);
    assert_eq!(d.next(0, 0), Search::Fail(EstablishError::Blocked));
}

#[test]
fn the_error_says_how_far_a_search_got() {
    // An address was dialed: a dial error, though another one was refused.
    let mut d = Dialer::new(Egress::default(), 1000);
    let answer = vec![SocketAddr::new(ip(1), 80), public(1, 80)];
    d.answered(Family::V4, Ok(answer), 0);
    assert!(matches!(d.next(0, 0), Search::Dial(_, _)));
    assert!(matches!(d.expired(5), EstablishError::Dial(_)));
    d.attempt_failed(refused_by_peer());
    d.answered(Family::V6, Err("no".into()), 1);
    assert_eq!(
        d.next(2, 0),
        Search::Fail(EstablishError::Dial(refused_by_peer()))
    );
    // None was dialed, and one was refused.
    let mut d = Dialer::new(Egress::default(), 1000);
    d.answered(Family::V4, Ok(vec![SocketAddr::new(ip(1), 80)]), 0);
    assert_eq!(d.expired(5), EstablishError::Blocked);
    d.answered(Family::V6, Err("no".into()), 1);
    assert_eq!(d.next(2, 0), Search::Fail(EstablishError::Blocked));
    // Neither.
    let mut d = Dialer::new(Egress::default(), 1000);
    d.answered(Family::V4, Err("no".into()), 0);
    assert!(matches!(d.expired(5), EstablishError::Dns(_)));
    d.answered(Family::V6, Err("no".into()), 1);
    assert!(matches!(d.next(2, 0), Search::Fail(EstablishError::Dns(_))));
}

#[test]
fn failed_lookups_name_both_families() {
    let mut d = Dialer::new(Egress::default(), 1000);
    d.answered(Family::V4, Err("x".into()), 0);
    d.answered(Family::V6, Err("y".into()), 0);
    assert_eq!(
        d.next(0, 7),
        Search::Fail(EstablishError::Dns("failed after 7 ms: A: x; AAAA: y".into()))
    );
}

#[test]
fn an_expired_search_says_how_far_it_got() {
    let d = Dialer::new(Egress::default(), 1000);
    assert_eq!(
        d.expired(10),
        EstablishError::Dns("timed out after 10 ms; A: ; AAAA: ".into())
    );
    let mut d = Dialer::new(Egress::default(), 1000);
    d.answered(Family::V4, Ok(vec![SocketAddr::new(ip(1), 80)]), 0);
    assert_eq!(d.expired(10), EstablishError::Blocked);
    d.answered(Family::V6, Ok(vec![public(1, 80)]), 0);
    assert!(matches!(d.next(0, 0), Search::Dial(_, _)));
    assert_eq!(
        d.expired(10),
        EstablishError::Dial(IoFailure {
            kind: IoErrorKind::TimedOut,
            message: "DNS and connection budget exhausted".into()
        })
    );
}

// UDP.

#[test]
fn dual_stack_clients_get_an_ipv4_relay() {
    let mapped = IpAddr::V6(Ipv6Addr {
        bits: 0xffff_7f00_0001,
    });
    assert_eq!(relay_bind_ip(SocketAddr::new(mapped, 1)), ip(1));
    let six = IpAddr::V6(Ipv6Addr::localhost());
    assert_eq!(relay_bind_ip(SocketAddr::new(six, 1)), six);
}

#[test]
fn port_scans_rotate_through_the_range() {
    let range = PortRange {
        start: 40000,
        end: 40003,
    };
    let mut scan = PortScan::new(range, 6);
    let mut ports = vec![];
    while let Some(port) = scan.next() {
        ports.push(port);
    }
    assert_eq!(ports, vec![40002, 40003, 40000, 40001]);
    assert_eq!(scan.next(), None);
}

#[test]
fn a_scan_from_the_last_offset_offers_every_port_once() {
    let range = PortRange {
        start: 10,
        end: 12,
    };
    let mut scan = PortScan::new(range, u32::MAX);
    // 2^32 - 1 is a multiple of 3.
    assert_eq!(scan.next(), Some(10));
    assert_eq!(scan.next(), Some(11));
    assert_eq!(scan.next(), Some(12));
    assert_eq!(scan.next(), None);
}

#[test]
fn taken_and_privileged_ports_are_skipped() {
    assert!(bind_retries(IoErrorKind::AddrInUse));
    assert!(bind_retries(IoErrorKind::PermissionDenied));
    assert!(!bind_retries(IoErrorKind::AddrNotAvailable));
}

#[test]
fn relay_sockets_are_bound_in_the_range() {
    let range = PortRange {
        start: 40000,
        end: 40001,
    };
    let (mut bind, first) = RelayBind::new(Some(range), 1);
    assert_eq!(first, 40001);
    assert_eq!(
        bind.failed(IoErrorKind::AddrInUse),
        BindStep::Try(40000)
    );
    assert_eq!(
        bind.failed(IoErrorKind::PermissionDenied),
        BindStep::Exhausted(IoFailure {
            kind: IoErrorKind::AddrInUse,
            message: "udp_port_range exhausted".into()
        })
    );
    let (mut bind, _) = RelayBind::new(Some(range), 1);
    assert_eq!(
        bind.failed(IoErrorKind::AddrNotAvailable),
        BindStep::PassOn
    );
}

#[test]
fn without_a_range_the_system_assigns_the_port() {
    let (mut bind, first) = RelayBind::new(None, 7);
    assert_eq!(first, 0);
    assert_eq!(bind.failed(IoErrorKind::AddrInUse), BindStep::PassOn);
}

#[test]
fn the_advertised_address() {
    assert_eq!(advertise_plan(&None), Advertise::Bound);
    let zero = IpAddr::V4(Ipv4Addr::unspecified());
    assert_eq!(
        advertise_plan(&Some(AdvertiseHost::Ip(zero))),
        Advertise::Bound
    );
    assert_eq!(
        advertise_plan(&Some(AdvertiseHost::Ip(ip(7)))),
        Advertise::Use(ip(7))
    );
    assert_eq!(
        advertise_plan(&Some(AdvertiseHost::Domain("h".into()))),
        Advertise::Lookup("h".into())
    );
    let six = SocketAddr::new(IpAddr::V6(Ipv6Addr::localhost()), 0);
    let answer = vec![SocketAddr::new(zero, 0), six, SocketAddr::new(ip(3), 0)];
    assert_eq!(advertise_answer("h", &answer, ip(1)), Ok(ip(3)));
    assert_eq!(
        advertise_answer("h", &vec![six], ip(1)),
        Err("h: no addresses matching the UDP socket family".into())
    );
}

fn association(advertise: Option<AdvertiseHost>) -> Association {
    Association::new(SocketAddr::new(ip(1), 9), advertise)
}

#[test]
fn an_association_runs_from_bind_to_close() {
    let mut m = Metrics::new();
    let mut a = association(None);
    let local = SocketAddr::new(ip(3), 1080);
    assert_eq!(
        a.next(&mut m, AssociationInput::Local(Some(local))),
        AssociationOutput::Bind(ip(3))
    );
    let bound = SocketAddr::new(ip(3), 258);
    assert_eq!(
        a.next(&mut m, AssociationInput::Bound(Some(bound))),
        AssociationOutput::Reply(vec![0x05, 0x00, 0x00, 0x01, 127, 0, 0, 3, 1, 2])
    );
    assert_eq!(
        a.next(&mut m, AssociationInput::Replied(true)),
        AssociationOutput::Relay(Event::Connect {
            id: 1,
            src: SocketAddr::new(ip(1), 9),
            target: "udp-associate".into(),
            kind: ConnKind::Udp
        })
    );
    assert_eq!(m.active(), 1);
    assert_eq!(
        a.next(&mut m, AssociationInput::RelayEnded),
        AssociationOutput::Finish(Event::Closed { id: 1 })
    );
    assert_eq!((m.active(), m.snapshot().successes), (0, 1));
}

#[test]
fn an_association_without_a_socket_is_refused() {
    let mut m = Metrics::new();
    let mut a = association(None);
    a.next(&mut m, AssociationInput::Local(Some(SocketAddr::new(ip(3), 1))));
    assert_eq!(
        a.next(&mut m, AssociationInput::NotBound),
        AssociationOutput::Reply(failure_reply(Socks5Error::General))
    );
    assert_eq!(
        a.next(&mut m, AssociationInput::Replied(true)),
        AssociationOutput::Finish(Event::Error {
            code: 1,
            msg: "udp relay bind failed (port range exhausted?)".into()
        })
    );
    assert_eq!(m.snapshot().failures, 0);
    let mut a = association(None);
    assert_eq!(
        a.next(&mut m, AssociationInput::Local(None)),
        AssociationOutput::End
    );
}

#[test]
fn an_association_advertises_what_is_configured() {
    let mut m = Metrics::new();
    let bound = SocketAddr::new(ip(3), 258);
    let reply = |n| AssociationOutput::Reply(vec![0x05, 0x00, 0x00, 0x01, 127, 0, 0, n, 1, 2]);

    let mut a = association(Some(AdvertiseHost::Ip(ip(9))));
    a.next(&mut m, AssociationInput::Local(Some(bound)));
    assert_eq!(
        a.next(&mut m, AssociationInput::Bound(Some(bound))),
        reply(9)
    );

    let mut a = association(Some(AdvertiseHost::Domain("h".into())));
    a.next(&mut m, AssociationInput::Local(Some(bound)));
    assert_eq!(
        a.next(&mut m, AssociationInput::Bound(Some(bound))),
        AssociationOutput::Lookup("h".into())
    );
    let six = SocketAddr::new(IpAddr::V6(Ipv6Addr::localhost()), 0);
    assert_eq!(
        a.next(
            &mut m,
            AssociationInput::Resolved(vec![six, SocketAddr::new(ip(4), 0)])
        ),
        reply(4)
    );
}

#[test]
fn an_association_whose_host_is_unknown_is_refused_and_counted() {
    let mut m = Metrics::new();
    let bound = SocketAddr::new(ip(3), 258);
    let cases = [
        (AssociationInput::NotResolved("gone".into()), "gone"),
        (
            AssociationInput::Resolved(vec![]),
            "h: no addresses matching the UDP socket family",
        ),
    ];
    for (input, reason) in cases {
        let mut a = association(Some(AdvertiseHost::Domain("h".into())));
        a.next(&mut m, AssociationInput::Local(Some(bound)));
        a.next(&mut m, AssociationInput::Bound(Some(bound)));
        assert_eq!(
            a.next(&mut m, input),
            AssociationOutput::Reply(failure_reply(Socks5Error::HostUnreachable))
        );
        assert_eq!(
            a.next(&mut m, AssociationInput::Replied(true)),
            AssociationOutput::Finish(Event::Error {
                code: 4,
                msg: format!("could not resolve UDP advertise host: {reason}")
            })
        );
    }
    assert_eq!(m.snapshot().error_codes[4], 2);
}

#[test]
fn the_relay_ends_with_its_control_connection() {
    let mut r = relay(None, 8);
    assert_eq!(turn(&mut r, Wake::Control(Some(1)), 0), Turn::Wait);
    assert_eq!(turn(&mut r, Wake::Control(Some(0)), 0), Turn::End);
    assert_eq!(turn(&mut r, Wake::Control(None), 0), Turn::End);
    assert_eq!(turn(&mut r, Wake::Idle, 0), Turn::End);
    assert_eq!(turn(&mut r, Wake::SocketFailed, 0), Turn::End);
    assert_eq!(turn(&mut r, Wake::Shutdown(false, false), 0), Turn::Wait);
    assert_eq!(turn(&mut r, Wake::Shutdown(true, false), 0), Turn::End);
    assert_eq!(
        turn(&mut r, Wake::Datagram(public(1, 1), b"x"), 0),
        Turn::Datagram(UdpAction::Drop)
    );
}

#[test]
fn delivered_datagrams_count_as_download() {
    let mut m = Metrics::new();
    let id = m.register(SocketAddr::new(ip(1), 9), "u".into(), ConnKind::Udp);
    account_delivered(&mut m, id, 12);
    account_delivered(&mut m, id, 30);
    assert_eq!((m.snapshot().bytes_up, m.snapshot().bytes_down), (0, 42));
    assert_eq!(m.connections()[0].down, 42);
}

#[test]
fn only_sent_datagrams_count() {
    let mut m = Metrics::new();
    let mut r = relay(Some(1), 8);
    let id = m.register(SocketAddr::new(ip(1), 9), "u".into(), ConnKind::Udp);
    account_sent(&mut r, &mut m, id, public(1, 53), 10, false);
    assert_eq!(m.snapshot().bytes_up, 0);
    account_sent(&mut r, &mut m, id, public(1, 53), 10, true);
    assert_eq!(m.snapshot().bytes_up, 10);
}

fn datagram_to(address: Address, data: &[u8]) -> Vec<u8> {
    let mut out = vec![];
    encap(&address, data, &mut out);
    out
}

fn relay(rate: Option<u32>, max_targets: usize) -> UdpRelay {
    let peer = SocketAddr::new(ip(1), 1234);
    UdpRelay::new(Egress::default(), ip(1), peer, max_targets, rate, 0)
}

#[test]
fn datagrams_are_forwarded_and_replies_delivered() {
    let mut r = relay(None, 8);
    let client = SocketAddr::new(ip(1), 4444);
    let target = public(1, 53);
    let bytes = datagram_to(Address::V4(Ipv4Addr::new(93, 184, 216, 1), 53), b"query");
    // Before the client is heard of, a target is not known.
    assert_eq!(r.receive(target, b"early", 0), UdpAction::Drop);
    assert_eq!(
        r.receive(client, &bytes, 0),
        UdpAction::Forward(target, b"query")
    );
    r.sent(target);
    match r.receive(target, b"answer", 1) {
        UdpAction::Deliver(dst, framed) => {
            assert_eq!(dst, client);
            let parsed = decap(&framed).unwrap();
            assert_eq!(parsed.frag, 0);
            assert_eq!(
                parsed.address,
                Address::V4(Ipv4Addr::new(93, 184, 216, 1), 53)
            );
            assert_eq!(parsed.data, b"answer");
        }
        other => panic!("not delivered: {other:?}"),
    }
    // Another source is neither the client nor a known target.
    assert_eq!(r.receive(public(2, 53), b"spoof", 2), UdpAction::Drop);
    // Nor is another port on the client's host, once the client is locked.
    let other = SocketAddr::new(ip(1), 5555);
    assert_eq!(r.receive(other, &bytes, 3), UdpAction::Drop);
}

#[test]
fn fragments_and_malformed_datagrams_are_dropped() {
    let mut r = relay(None, 8);
    let client = SocketAddr::new(ip(1), 4444);
    let mut bytes = datagram_to(Address::V4(Ipv4Addr::new(93, 184, 216, 1), 53), b"x");
    bytes[2] = 1;
    assert_eq!(r.receive(client, &bytes, 0), UdpAction::Drop);
    assert_eq!(r.receive(client, &[0, 0], 0), UdpAction::Drop);
}

#[test]
fn blocked_targets_are_not_relayed_to() {
    let mut r = relay(None, 8);
    let client = SocketAddr::new(ip(1), 4444);
    let bytes = datagram_to(Address::V4(Ipv4Addr::new(10, 0, 0, 1), 53), b"x");
    assert_eq!(r.receive(client, &bytes, 0), UdpAction::Drop);
    let bytes = datagram_to(Address::Domain("h".into(), 53), b"x");
    assert_eq!(
        r.receive(client, &bytes, 0),
        UdpAction::Resolve("h".into(), 53, b"x")
    );
    let inner = SocketAddr::new(ip(1), 53);
    let six = SocketAddr::new(IpAddr::V6(Ipv6Addr { bits: 0x2600 << 112 }), 53);
    assert_eq!(
        r.resolved(&vec![inner, six, public(3, 53)]),
        Some(public(3, 53))
    );
    assert_eq!(r.resolved(&vec![inner, six]), None);
}

#[test]
fn the_rate_limit_counts_sends_per_second() {
    let mut r = relay(Some(2), 8);
    let client = SocketAddr::new(ip(1), 4444);
    let target = public(1, 53);
    let bytes = datagram_to(Address::V4(Ipv4Addr::new(93, 184, 216, 1), 53), b"x");
    for _ in 0..2 {
        assert_eq!(r.receive(client, &bytes, 5), UdpAction::Forward(target, b"x"));
        r.sent(target);
    }
    assert_eq!(r.receive(client, &bytes, SECOND - 1), UdpAction::Drop);
    assert_eq!(
        r.receive(client, &bytes, SECOND),
        UdpAction::Forward(target, b"x")
    );
}

#[test]
fn the_oldest_target_gives_way() {
    let mut r = relay(None, 2);
    let client = SocketAddr::new(ip(1), 4444);
    let bytes = datagram_to(Address::V4(Ipv4Addr::new(93, 184, 216, 1), 53), b"x");
    assert!(matches!(
        r.receive(client, &bytes, 0),
        UdpAction::Forward(_, _)
    ));
    for n in 1..=3 {
        r.sent(public(n, 53));
    }
    assert_eq!(r.receive(public(1, 53), b"a", 0), UdpAction::Drop);
    assert!(matches!(
        r.receive(public(2, 53), b"a", 0),
        UdpAction::Deliver(_, _)
    ));
    assert!(matches!(
        r.receive(public(3, 53), b"a", 0),
        UdpAction::Deliver(_, _)
    ));
}

#[test]
fn failed_lookups_are_reported_once_a_second() {
    let mut r = relay(None, 2);
    let report = Event::Error {
        code: 4,
        msg: "could not resolve UDP target h:53: gone".into(),
    };
    assert_eq!(r.lookup_failed("h", 53, "gone", 10), Some(report.clone()));
    assert_eq!(r.lookup_failed("h", 53, "gone", SECOND), None);
    assert_eq!(r.lookup_failed("h", 53, "gone", SECOND + 10), Some(report));
}
