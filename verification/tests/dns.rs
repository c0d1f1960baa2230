use next_socks5::dns::{lookup, query, Lookup};
use next_socks5::net::{IpAddr, Ipv4Addr, Ipv6Addr, SocketAddr};

fn v4(n: u8) -> IpAddr {
    IpAddr::V4(Ipv4Addr::new(192, 0, 2, n))
}

#[test]
fn answers_are_canonical_and_distinct() {
    let mapped = IpAddr::V6(Ipv6Addr {
        bits: 0xffff_c000_0201,
    });
    assert_eq!(
        query(Lookup::Answer(vec![v4(2), mapped, v4(1), v4(2)])),
        Ok(vec![v4(2), v4(1)])
    );
}

#[test]
fn failures_have_reasons() {
    assert_eq!(query(Lookup::TimedOut), Err("timed out".to_string()));
    assert_eq!(
        query(Lookup::NoData),
        Err("no addresses returned (NOERROR)".to_string())
    );
    assert_eq!(
        query(Lookup::NoRecords("NXDomain".into(), "no records".into())),
        Err("NXDomain: no records".to_string())
    );
    assert_eq!(
        query(Lookup::Failed("refused".into())),
        Err("refused".to_string())
    );
    assert_eq!(
        query(Lookup::Answer(vec![])),
        Err("no addresses returned".to_string())
    );
}

#[test]
fn lookups_carry_the_port() {
    assert_eq!(
        lookup("example.test", 443, Lookup::Answer(vec![v4(1), v4(1)]), 3),
        Ok(vec![SocketAddr::new(v4(1), 443)])
    );
}

#[test]
fn failed_lookups_say_what_and_when() {
    let error = lookup("example.test", 443, Lookup::TimedOut, 1500).unwrap_err();
    assert_eq!(
        error.message(),
        "DNS lookup for example.test failed after 1500 ms: timed out"
    );
}
