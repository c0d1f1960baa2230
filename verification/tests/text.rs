use next_socks5::net::{IpAddr, Ipv4Addr, Ipv6Addr, SocketAddr, SocketAddrV6};
use next_socks5::text::{push_decimal, push_ip, push_ipv6, push_numeral, push_socket};

fn v6(bits: u128) -> String {
    let mut out = String::new();
    push_ipv6(&mut out, Ipv6Addr { bits });
    out
}

#[test]
fn numbers() {
    let mut out = String::from("n=");
    push_decimal(&mut out, 0);
    out.push(' ');
    push_decimal(&mut out, 340282366920938463463374607431768211455);
    out.push(' ');
    push_numeral(&mut out, 0xbeef, 16);
    assert_eq!(out, "n=0 340282366920938463463374607431768211455 beef");
}

#[test]
fn ipv4_addresses() {
    let mut out = String::new();
    push_ip(&mut out, IpAddr::V4(Ipv4Addr::new(192, 0, 2, 255)));
    assert_eq!(out, "192.0.2.255");
}

#[test]
fn ipv6_addresses() {
    assert_eq!(v6(0), "::");
    assert_eq!(v6(1), "::1");
    assert_eq!(v6(0x2001_0db8_0000_0000_0000_0000_0000_0001), "2001:db8::1");
    // The first of two runs of equal length is left out.
    assert_eq!(v6(0x2001_0000_0000_0001_0000_0000_0001_0001), "2001::1:0:0:1:1");
    // The longer run is left out.
    assert_eq!(v6(0x2001_0000_0000_0001_0000_0000_0000_0001), "2001:0:0:1::1");
    // A single zero group is written.
    assert_eq!(v6(0x0001_0000_0002_0003_0004_0005_0006_0007), "1:0:2:3:4:5:6:7");
    assert_eq!(v6(0xfe80_0000_0000_0000_0000_0000_0000_0000), "fe80::");
    assert_eq!(v6(0xffff_c000_0201), "::ffff:192.0.2.1");
    assert_eq!(
        v6(0xffff_ffff_ffff_ffff_ffff_ffff_ffff_ffff),
        "ffff:ffff:ffff:ffff:ffff:ffff:ffff:ffff"
    );
}

#[test]
fn socket_addresses() {
    let mut out = String::new();
    push_socket(
        &mut out,
        SocketAddr::new(IpAddr::V4(Ipv4Addr::localhost()), 1080),
    );
    assert_eq!(out, "127.0.0.1:1080");

    let mut out = String::new();
    push_socket(
        &mut out,
        SocketAddr::new(IpAddr::V6(Ipv6Addr::localhost()), 80),
    );
    assert_eq!(out, "[::1]:80");

    let mut out = String::new();
    push_socket(
        &mut out,
        SocketAddr::V6(SocketAddrV6 {
            ip: Ipv6Addr::localhost(),
            port: 80,
            flowinfo: 3,
            scope_id: 7,
        }),
    );
    assert_eq!(out, "[::1%7]:80");
}

#[test]
fn address_classes() {
    let v4 = |a, b, c, d| IpAddr::V4(Ipv4Addr::new(a, b, c, d));
    let v6 = |bits| IpAddr::V6(Ipv6Addr { bits });
    assert!(v4(127, 9, 9, 9).is_loopback());
    assert!(!v4(128, 0, 0, 1).is_loopback());
    assert!(v6(1).is_loopback());
    assert!(v4(10, 0, 0, 1).is_private());
    assert!(v4(172, 31, 0, 1).is_private());
    assert!(!v4(172, 32, 0, 1).is_private());
    assert!(v4(192, 168, 1, 1).is_private());
    assert!(v6(0xfd00_0000_0000_0000_0000_0000_0000_0001).is_private());
    assert!(!v6(0xfe00_0000_0000_0000_0000_0000_0000_0001).is_private());
    assert!(v4(169, 254, 169, 254).is_link_local());
    assert!(v6(0xfe80_0000_0000_0000_0000_0000_0000_0001).is_link_local());
    assert!(v6(0xfebf_0000_0000_0000_0000_0000_0000_0001).is_link_local());
    assert!(!v6(0xfec0_0000_0000_0000_0000_0000_0000_0001).is_link_local());
    assert!(v4(224, 0, 0, 1).is_multicast());
    assert!(v4(239, 255, 255, 255).is_multicast());
    assert!(!v4(240, 0, 0, 1).is_multicast());
    assert!(v6(0xff02_0000_0000_0000_0000_0000_0000_0001).is_multicast());
    assert!(v4(0, 0, 0, 0).is_unspecified());
    assert!(v6(0).is_unspecified());
    assert_eq!(v6(0xffff_0a00_0001).to_canonical(), v4(10, 0, 0, 1));
    assert_eq!(v6(0x0a00_0001).to_canonical(), v6(0x0a00_0001));
    assert!(v4(1, 2, 3, 4).is_ipv4());
    assert!(!v6(1).is_ipv4());
}

#[test]
fn octets_and_segments() {
    assert_eq!(Ipv4Addr::new(1, 2, 3, 4).octets(), vec![1, 2, 3, 4]);
    let ip = Ipv6Addr {
        bits: 0x2001_0db8_0000_0000_0000_0000_0000_00ff,
    };
    assert_eq!(ip.octets()[0..4], [0x20, 0x01, 0x0d, 0xb8]);
    assert_eq!(ip.segments(), vec![0x2001, 0x0db8, 0, 0, 0, 0, 0, 0xff]);
}
