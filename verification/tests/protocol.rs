use next_socks5::net::{Ipv4Addr, Ipv6Addr};
use next_socks5::protocol::address::{AddrError, Address, ATYP_DOMAIN, ATYP_V4};
use next_socks5::protocol::handshake::{
    method_reply, parse_greeting, parse_userpass, select_method, userpass_reply, HandshakeError,
    METHOD_NONE_ACCEPTABLE, METHOD_NO_AUTH, METHOD_USERPASS, USERPASS_VERSION,
};
use next_socks5::protocol::reply::{encode_reply, failure_reply, success_reply};
use next_socks5::protocol::request::{parse_request, Command, RequestError};
use next_socks5::protocol::udp::{decap, decap_ref, encap, UdpError};

// Addresses.

#[test]
fn v4_round_trip() {
    let addr = Address::V4(Ipv4Addr::new(127, 0, 0, 1), 1080);
    let mut buf = Vec::new();
    addr.encode(&mut buf);
    let (decoded, consumed) = Address::decode(&buf).unwrap();
    assert_eq!(decoded, addr);
    assert_eq!(consumed, buf.len());
}

#[test]
fn v6_round_trip() {
    let addr = Address::V6(Ipv6Addr::localhost(), 443);
    let mut buf = Vec::new();
    addr.encode(&mut buf);
    let (decoded, consumed) = Address::decode(&buf).unwrap();
    assert_eq!(decoded, addr);
    assert_eq!(consumed, buf.len());
}

#[test]
fn domain_round_trip() {
    let addr = Address::Domain("example.com".to_owned(), 80);
    let mut buf = Vec::new();
    addr.encode(&mut buf);
    let (decoded, consumed) = Address::decode(&buf).unwrap();
    assert_eq!(decoded, addr);
    assert_eq!(consumed, buf.len());
}

#[test]
fn truncated_v4() {
    // ATYP=0x01 but only 2 trailing bytes.
    let buf = [ATYP_V4, 0x7f, 0x00];
    assert_eq!(Address::decode(&buf), Err(AddrError::Truncated));
}

#[test]
fn bad_atyp() {
    let buf = [0x09, 0x00, 0x00];
    assert_eq!(Address::decode(&buf), Err(AddrError::BadAtyp(9)));
}

#[test]
fn max_domain_round_trip() {
    let domain = "a".repeat(255);
    let addr = Address::Domain(domain, 12345);
    let mut buf = Vec::new();
    addr.encode(&mut buf);
    let (decoded, consumed) = Address::decode(&buf).unwrap();
    assert_eq!(decoded, addr);
    // 1 (ATYP) + 1 (len) + 255 (domain) + 2 (port).
    assert_eq!(consumed, 259);
    assert_eq!(consumed, buf.len());
}

#[test]
fn trailing_bytes_not_consumed() {
    let addr = Address::V4(Ipv4Addr::new(10, 0, 0, 1), 8080);
    let mut buf = Vec::new();
    addr.encode(&mut buf);
    let encoded_len = buf.len();
    buf.push(0xAA);
    let (decoded, consumed) = Address::decode(&buf).unwrap();
    assert_eq!(decoded, addr);
    assert_eq!(consumed, encoded_len);
    assert_eq!(buf[consumed], 0xAA);
}

#[test]
fn domain_invalid_utf8() {
    // ATYP=0x03, len=2, two invalid UTF-8 bytes, then port.
    let buf = [ATYP_DOMAIN, 0x02, 0xff, 0xfe, 0x00, 0x50];
    assert_eq!(Address::decode(&buf), Err(AddrError::BadDomain));
}

#[test]
fn addresses_have_their_wire_bytes() {
    let mut out = vec![0xEE];
    Address::V4(Ipv4Addr::new(192, 0, 2, 7), 0x1234).encode(&mut out);
    assert_eq!(out, vec![0xEE, 0x01, 192, 0, 2, 7, 0x12, 0x34]);

    let mut out = Vec::new();
    let bits = 0x2001_0db8_0000_0000_0000_0000_0000_00ff;
    Address::V6(Ipv6Addr { bits }, 53).encode(&mut out);
    assert_eq!(
        out,
        vec![0x04, 0x20, 0x01, 0x0d, 0xb8, 0, 0, 0, 0, 0, 0, 0, 0, 0, 0, 0, 0xff, 0, 53]
    );

    let mut out = Vec::new();
    Address::Domain("é".to_owned(), 1).encode(&mut out);
    assert_eq!(out, vec![0x03, 2, 0xc3, 0xa9, 0, 1]);
}

#[test]
fn an_oversized_domain_writes_the_low_byte_of_its_length() {
    let mut out = Vec::new();
    Address::Domain("b".repeat(258), 9).encode(&mut out);
    assert_eq!(&out[..3], &[0x03, 2, b'b']);
    assert_eq!(out.len(), 2 + 258 + 2);
}

#[test]
fn every_proper_prefix_of_an_address_is_truncated() {
    for addr in [
        Address::V4(Ipv4Addr::new(1, 2, 3, 4), 80),
        Address::V6(Ipv6Addr::localhost(), 80),
        Address::Domain("abc".to_owned(), 80),
    ] {
        let mut buf = Vec::new();
        addr.encode(&mut buf);
        for n in 0..buf.len() {
            assert_eq!(Address::decode(&buf[..n]), Err(AddrError::Truncated));
        }
    }
}

// Handshake.

#[test]
fn greeting_parses_methods() {
    assert_eq!(
        parse_greeting(&[0x05, 0x02, 0x00, 0x02]).unwrap(),
        vec![0x00, 0x02]
    );
}

#[test]
fn greeting_truncated() {
    assert_eq!(
        parse_greeting(&[0x05, 0x02, 0x00]),
        Err(HandshakeError::Truncated)
    );
}

#[test]
fn greeting_bad_version() {
    assert_eq!(
        parse_greeting(&[0x04, 0x01, 0x00]),
        Err(HandshakeError::BadVersion(4))
    );
}

#[test]
fn select_userpass_when_required_and_offered() {
    assert_eq!(select_method(&[0x00, 0x02], true), METHOD_USERPASS);
}

#[test]
fn select_none_when_userpass_required_but_missing() {
    assert_eq!(select_method(&[0x00], true), METHOD_NONE_ACCEPTABLE);
}

#[test]
fn select_no_auth_when_not_required() {
    assert_eq!(select_method(&[0x00, 0x02], false), METHOD_NO_AUTH);
}

#[test]
fn select_none_when_no_auth_missing() {
    assert_eq!(select_method(&[0x02], false), METHOD_NONE_ACCEPTABLE);
}

#[test]
fn userpass_round_trip() {
    let user = "alice";
    let pass = "secret";
    let mut buf = vec![USERPASS_VERSION, user.len() as u8];
    buf.extend_from_slice(user.as_bytes());
    buf.push(pass.len() as u8);
    buf.extend_from_slice(pass.as_bytes());
    assert_eq!(
        parse_userpass(&buf).unwrap(),
        ("alice".to_owned(), "secret".to_owned())
    );
}

#[test]
fn userpass_truncated() {
    // VER, ULEN=5 but username bytes are missing.
    assert_eq!(
        parse_userpass(&[0x01, 0x05, b'a']),
        Err(HandshakeError::Truncated)
    );
}

#[test]
fn userpass_bad_version() {
    assert_eq!(
        parse_userpass(&[0x02, 0x01, b'a', 0x01, b'b']),
        Err(HandshakeError::BadVersion(2))
    );
}

#[test]
fn replies_match_spec() {
    assert_eq!(method_reply(METHOD_USERPASS), [0x05, 0x02]);
    assert_eq!(userpass_reply(true), [0x01, 0x00]);
    assert_eq!(userpass_reply(false), [0x01, 0x01]);
}

#[test]
fn userpass_rejects_invalid_utf8() {
    assert_eq!(
        parse_userpass(&[0x01, 0x01, 0xff, 0x01, b'p']),
        Err(HandshakeError::BadDomain)
    );
    assert_eq!(
        parse_userpass(&[0x01, 0x01, b'u', 0x01, 0x80]),
        Err(HandshakeError::BadDomain)
    );
}

#[test]
fn userpass_prefixes_are_truncated() {
    let buf = [0x01, 0x02, b'h', b'i', 0x01, b'p', 0x05];
    for n in 0..6 {
        assert_eq!(parse_userpass(&buf[..n]), Err(HandshakeError::Truncated));
    }
    assert_eq!(
        parse_userpass(&buf).unwrap(),
        ("hi".to_owned(), "p".to_owned())
    );
}

#[test]
fn an_empty_greeting_offers_nothing() {
    assert_eq!(parse_greeting(&[0x05, 0x00, 0x09]).unwrap(), Vec::<u8>::new());
    assert_eq!(parse_greeting(&[]), Err(HandshakeError::Truncated));
}

// Requests.

#[test]
fn parse_connect_ipv4() {
    // VER CMD RSV ATYP=0x01 1.2.3.4 port 80
    let buf = [0x05, 0x01, 0x00, 0x01, 1, 2, 3, 4, 0x00, 0x50];
    let req = parse_request(&buf).unwrap();
    assert_eq!(req.command, Command::Connect);
    assert_eq!(req.address, Address::V4(Ipv4Addr::new(1, 2, 3, 4), 80));
}

#[test]
fn parse_udp_associate_domain() {
    // VER CMD=0x03 RSV ATYP=0x03 len=11 "example.com" port 53
    let mut buf = vec![0x05, 0x03, 0x00, 0x03, 11];
    buf.extend_from_slice(b"example.com");
    buf.extend_from_slice(&53u16.to_be_bytes());
    let req = parse_request(&buf).unwrap();
    assert_eq!(req.command, Command::UdpAssociate);
    assert_eq!(req.address, Address::Domain("example.com".to_owned(), 53));
}

#[test]
fn parse_bind() {
    let buf = [0x05, 0x02, 0x00, 0x01, 1, 2, 3, 4, 0x00, 0x50];
    let req = parse_request(&buf).unwrap();
    assert_eq!(req.command, Command::Bind);
}

#[test]
fn bad_version() {
    let buf = [0x04, 0x01, 0x00, 0x01, 1, 2, 3, 4, 0x00, 0x50];
    assert_eq!(parse_request(&buf), Err(RequestError::BadVersion(4)));
}

#[test]
fn bad_command() {
    let buf = [0x05, 0x09, 0x00, 0x01, 1, 2, 3, 4, 0x00, 0x50];
    assert_eq!(parse_request(&buf), Err(RequestError::BadCommand(9)));
}

#[test]
fn truncated() {
    let buf = [0x05, 0x01];
    assert_eq!(parse_request(&buf), Err(RequestError::Truncated));
}

#[test]
fn request_address_errors_are_passed_on() {
    assert_eq!(
        parse_request(&[0x05, 0x01, 0x00, 0x01, 1, 2]),
        Err(RequestError::Addr(AddrError::Truncated))
    );
    assert_eq!(
        parse_request(&[0x05, 0x01, 0x00, 0x07]),
        Err(RequestError::Addr(AddrError::BadAtyp(7)))
    );
    assert_eq!(
        parse_request(&[0x05, 0x01, 0x00, 0x03, 1, 0xff, 0, 80]),
        Err(RequestError::Addr(AddrError::BadDomain))
    );
}

#[test]
fn the_reserved_byte_of_a_request_is_ignored() {
    let buf = [0x05, 0x01, 0x77, 0x01, 1, 2, 3, 4, 0x00, 0x50, 0xAB];
    let req = parse_request(&buf).unwrap();
    assert_eq!(req.address, Address::V4(Ipv4Addr::new(1, 2, 3, 4), 80));
    assert_eq!(req.clone(), req);
}

// Replies.

#[test]
fn encode_success_ipv4() {
    let mut out = Vec::new();
    encode_reply(
        0x00,
        &Address::V4(Ipv4Addr::new(127, 0, 0, 1), 1080),
        &mut out,
    );
    assert_eq!(
        out,
        vec![0x05, 0x00, 0x00, 0x01, 0x7f, 0x00, 0x00, 0x01, 0x04, 0x38]
    );
}

#[test]
fn success_and_failure_replies() {
    assert_eq!(
        success_reply(&Address::V4(Ipv4Addr::new(10, 1, 2, 3), 258)),
        vec![0x05, 0x00, 0x00, 0x01, 10, 1, 2, 3, 1, 2]
    );
    assert_eq!(
        failure_reply(next_socks5::error::Socks5Error::HostUnreachable),
        vec![0x05, 0x04, 0x00, 0x01, 0, 0, 0, 0, 0, 0]
    );
}

// UDP datagrams.

#[test]
fn round_trip_domain() {
    let addr = Address::Domain("example.com".to_owned(), 53);
    let mut buf = Vec::new();
    encap(&addr, b"hello", &mut buf);
    let dg = decap(&buf).unwrap();
    assert_eq!(dg.frag, 0);
    assert_eq!(dg.address, addr);
    assert_eq!(dg.data, b"hello");
}

#[test]
fn round_trip_v4() {
    let addr = Address::V4(Ipv4Addr::new(8, 8, 8, 8), 53);
    let mut buf = Vec::new();
    encap(&addr, b"\x01\x02\x03", &mut buf);
    let dg = decap(&buf).unwrap();
    assert_eq!(dg.frag, 0);
    assert_eq!(dg.address, addr);
    assert_eq!(dg.data, b"\x01\x02\x03");
}

#[test]
fn decap_preserves_frag() {
    // Manually build a datagram with FRAG=3 and an IPv4 target.
    let addr = Address::V4(Ipv4Addr::new(1, 1, 1, 1), 80);
    let mut buf = vec![0x00, 0x00, 0x03];
    addr.encode(&mut buf);
    buf.extend_from_slice(b"data");
    let dg = decap(&buf).unwrap();
    assert_eq!(dg.frag, 3);
    assert_eq!(dg.address, addr);
    assert_eq!(dg.data, b"data");
}

#[test]
fn decap_truncated_header() {
    assert_eq!(decap(&[0x00, 0x00]), Err(UdpError::Truncated));
}

#[test]
fn encap_starts_with_rsv_and_frag() {
    let addr = Address::V4(Ipv4Addr::new(127, 0, 0, 1), 1080);
    let mut buf = Vec::new();
    encap(&addr, b"", &mut buf);
    assert_eq!(&buf[..3], &[0x00, 0x00, 0x00]);
}

#[test]
fn decap_ref_borrows_payload() {
    let addr = Address::Domain("example.com".to_owned(), 53);
    let mut buf = Vec::new();
    encap(&addr, b"hello", &mut buf);
    let dg = decap_ref(&buf).unwrap();
    assert_eq!(dg.frag, 0);
    assert_eq!(dg.address, addr);
    assert_eq!(dg.data, b"hello");
    // The payload is a view into the input buffer, not a copy.
    assert_eq!(dg.data.as_ptr(), buf[buf.len() - 5..].as_ptr());
}

#[test]
fn decap_empty_data() {
    let addr = Address::V4(Ipv4Addr::new(10, 0, 0, 1), 8080);
    let mut buf = Vec::new();
    encap(&addr, b"", &mut buf);
    let dg = decap(&buf).unwrap();
    assert_eq!(dg.address, addr);
    assert!(dg.data.is_empty());
}

#[test]
fn decap_passes_address_errors_on() {
    assert_eq!(
        decap(&[0, 0, 0, 0x09]),
        Err(UdpError::Addr(AddrError::BadAtyp(9)))
    );
    assert_eq!(
        decap(&[0, 0, 0, 0x01, 1, 2]),
        Err(UdpError::Addr(AddrError::Truncated))
    );
}
