use next_socks5::config::{
    apply_overrides, AdminConfig, AuthConfig, AuthMethod, Cli, Config, DnsConfig, Egress, Limits,
    PortRange, PortRangeError, Timeouts, UdpConfig, User,
};
use next_socks5::net::{IpAddr, Ipv4Addr, Ipv6Addr, SocketAddr, SocketAddrV6};

fn example_config() -> Config {
    Config {
        listen: "127.0.0.1:1080".to_string(),
        auth: AuthConfig {
            method: AuthMethod::Password,
            users: vec![User {
                username: "alice".to_string(),
                password: "secret".to_string(),
            }],
        },
        timeouts: Timeouts {
            connect_ms: 10_000,
            tcp_idle_ms: 300_000,
            udp_idle_ms: 60_000,
            ..Timeouts::default()
        },
        limits: Limits {
            max_connections: Some(1024),
            ..Limits::default()
        },
        public_addr: None,
        udp: UdpConfig::default(),
        admin: AdminConfig::default(),
        egress: Egress::default(),
        dns: DnsConfig::default(),
    }
}

#[test]
fn cli_listen_override_replaces_listen() {
    let mut cfg = example_config();
    let cli = Cli {
        config: None,
        listen: Some("0.0.0.0:9999".to_string()),
        no_tui: false,
    };
    apply_overrides(&mut cfg, &cli);
    assert_eq!(cfg.listen, "0.0.0.0:9999");
}

#[test]
fn cli_override_absent_keeps_listen() {
    let mut cfg = example_config();
    let cli = Cli {
        config: None,
        listen: None,
        no_tui: false,
    };
    apply_overrides(&mut cfg, &cli);
    assert_eq!(cfg.listen, "127.0.0.1:1080");
}

#[test]
fn overrides_touch_nothing_else() {
    let mut cfg = example_config();
    let cli = Cli {
        config: None,
        listen: Some("[::]:1".to_string()),
        no_tui: true,
    };
    apply_overrides(&mut cfg, &cli);
    let mut expected = example_config();
    expected.listen = "[::]:1".to_string();
    assert_eq!(cfg, expected);
}

#[test]
fn a_named_file_is_the_base_and_else_the_defaults_are() {
    let cli = Cli {
        config: Some("socks.toml".to_string()),
        listen: None,
        no_tui: false,
    };
    assert_eq!(Config::load(&cli, Some(example_config())), example_config());
    let cli = Cli {
        config: None,
        listen: None,
        no_tui: false,
    };
    let cfg = Config::load(&cli, None);
    assert_eq!(cfg, Config::default_config());
    assert_eq!(cfg.listen, "127.0.0.1:1080");
    assert_eq!(cfg.auth.method, AuthMethod::NoAuth);
    assert!(cfg.auth.users.is_empty());
    assert_eq!(cfg.timeouts.connect_ms, 10_000);
    assert_eq!(cfg.timeouts.tcp_idle_ms, 300_000);
    assert_eq!(cfg.timeouts.udp_idle_ms, 60_000);
    assert_eq!(cfg.limits.max_connections, None);
    assert_eq!(cfg.public_addr, None);
    assert!(cfg.dns.servers.is_empty());
    assert_eq!(cfg.admin.socket_path(), "/run/next-socks5/admin.sock");
    let cli = Cli {
        config: None,
        listen: Some("0.0.0.0:5".to_string()),
        no_tui: false,
    };
    assert_eq!(Config::load(&cli, None).listen, "0.0.0.0:5");
}

#[test]
fn a_configured_admin_socket_is_used() {
    let admin = AdminConfig {
        enabled: true,
        socket: Some("/tmp/x.sock".to_string()),
    };
    assert_eq!(admin.socket_path(), "/tmp/x.sock");
}

#[test]
fn port_ranges_are_validated() {
    assert_eq!(
        PortRange::new(40000, 40100),
        Ok(PortRange {
            start: 40000,
            end: 40100
        })
    );
    assert_eq!(
        PortRange::new(40000, 40000),
        Ok(PortRange {
            start: 40000,
            end: 40000
        })
    );
    assert_eq!(PortRange::new(5000, 4000), Err(PortRangeError::Reversed));
    assert_eq!(PortRange::new(0, 100), Err(PortRangeError::ZeroStart));
}

#[test]
fn port_ranges_are_parsed() {
    assert_eq!(
        PortRange::parse("40000-40100"),
        Ok(PortRange {
            start: 40000,
            end: 40100
        })
    );
    assert_eq!(
        PortRange::parse(" 40000 -\t+40000\u{3000}"),
        Ok(PortRange {
            start: 40000,
            end: 40000
        })
    );
    assert_eq!(PortRange::parse("5000"), Err(PortRangeError::NoDash));
    assert_eq!(PortRange::parse("a-b"), Err(PortRangeError::BadStart));
    assert_eq!(PortRange::parse("-5"), Err(PortRangeError::BadStart));
    assert_eq!(PortRange::parse("1-"), Err(PortRangeError::BadEnd));
    assert_eq!(PortRange::parse("1-+"), Err(PortRangeError::BadEnd));
    assert_eq!(PortRange::parse("1-2-3"), Err(PortRangeError::BadEnd));
    assert_eq!(PortRange::parse("1-65536"), Err(PortRangeError::BadEnd));
    assert_eq!(
        PortRange::parse("0001-065535"),
        Ok(PortRange {
            start: 1,
            end: 65535
        })
    );
    assert_eq!(PortRange::parse("5000-4000"), Err(PortRangeError::Reversed));
    assert_eq!(PortRange::parse("0-100"), Err(PortRangeError::ZeroStart));
}

#[test]
fn methods_have_names() {
    assert_eq!(AuthMethod::NoAuth.name(), "none");
    assert_eq!(AuthMethod::Password.name(), "password");
}

#[test]
fn the_egress_policy_blocks_internal_addresses() {
    let v4 = |a, b, c, d| IpAddr::V4(Ipv4Addr::new(a, b, c, d));
    let secure = Egress::default();
    assert!(secure.is_blocked(v4(127, 0, 0, 1)));
    assert!(secure.is_blocked(IpAddr::V6(Ipv6Addr::localhost())));
    assert!(secure.is_blocked(v4(10, 0, 0, 1)));
    assert!(secure.is_blocked(v4(169, 254, 169, 254)));
    assert!(secure.is_blocked(v4(0, 0, 0, 0)));
    assert!(secure.is_blocked(v4(224, 0, 0, 1)));
    // An IPv4-mapped address is judged by the address it carries.
    assert!(secure.is_blocked(IpAddr::V6(Ipv6Addr {
        bits: 0xffff_7f00_0001
    })));
    assert!(!secure.is_blocked(v4(93, 184, 216, 34)));
    let local = Egress {
        block_loopback: false,
        ..Egress::default()
    };
    assert!(!local.is_blocked(v4(127, 0, 0, 1)));
    assert!(!local.is_blocked(IpAddr::V6(Ipv6Addr::localhost())));
    assert!(local.is_blocked(v4(10, 0, 0, 1)));
    assert!(!Egress::permissive().is_blocked(v4(10, 0, 0, 1)));
    assert!(!Egress::permissive().is_blocked(v4(127, 0, 0, 1)));
}

#[test]
fn dns_servers_name_one_host() {
    let v4 = |a, b, c, d, port| SocketAddr::new(IpAddr::V4(Ipv4Addr::new(a, b, c, d)), port);
    assert!(DnsConfig::accepts(v4(192, 0, 2, 1, 53)));
    assert!(DnsConfig::accepts(v4(127, 0, 0, 1, 5353)));
    assert!(!DnsConfig::accepts(v4(192, 0, 2, 1, 0)));
    assert!(!DnsConfig::accepts(v4(0, 0, 0, 0, 53)));
    assert!(!DnsConfig::accepts(v4(224, 0, 0, 1, 53)));
    let scoped = SocketAddr::V6(SocketAddrV6 {
        ip: Ipv6Addr {
            bits: 0xfe80_0000_0000_0000_0000_0000_0000_0001,
        },
        port: 53,
        flowinfo: 0,
        scope_id: 2,
    });
    assert!(!DnsConfig::accepts(scoped));
    assert!(DnsConfig::accepts(SocketAddr::new(
        IpAddr::V6(Ipv6Addr::localhost()),
        5354
    )));
}
