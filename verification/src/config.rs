//! Server configuration and the overrides that the command line applies to it.
//!
//! Where a file is supplied, its settings are the base; otherwise the defaults
//! are. Command-line overrides are merged on top.

use vstd::prelude::*;

use crate::net::{ipv4_classes_follow_the_octets, ipv6_classes_follow_the_range, mapped_addresses_stand_for_ipv4, IpAddr, Ipv4Addr, Ipv6Addr, SocketAddr};
use crate::text::{decimal, decimals_read_back, is_digit, is_space, parse_port, port_number, trim_bounds, trimmed, trimming_keeps_what_is_between};

verus! {

/// Top-level server configuration.
#[derive(Debug, PartialEq, Eq)]
pub struct Config {
    /// Listen address, e.g. `"127.0.0.1:1080"`.
    pub listen: String,
    /// Authentication settings.
    pub auth: AuthConfig,
    /// Timeout settings.
    pub timeouts: Timeouts,
    /// Resource limits.
    pub limits: Limits,
    /// An address of the server as configured. UDP ASSOCIATE replies do not follow
    /// it: what they advertise is set in `udp`.
    pub public_addr: Option<String>,
    /// UDP relay transport/addressing.
    pub udp: UdpConfig,
    /// Local admin endpoint.
    pub admin: AdminConfig,
    /// Destinations that are never relayed to.
    pub egress: Egress,
    /// Name resolution.
    pub dns: DnsConfig,
}

/// Authentication configuration.
#[derive(Debug, PartialEq, Eq)]
pub struct AuthConfig {
    /// Authentication method to require from clients.
    pub method: AuthMethod,
    /// Username/password credentials (used when `method` is `Password`).
    pub users: Vec<User>,
}

/// Supported authentication methods.
#[derive(Debug, Clone, Copy, PartialEq, Eq, Structural)]
pub enum AuthMethod {
    /// No authentication required.
    NoAuth,
    /// Username/password authentication (RFC 1929).
    Password,
}

/// A username/password credential pair.
#[derive(Debug, PartialEq, Eq)]
pub struct User {
    /// Username.
    pub username: String,
    /// Password.
    pub password: String,
}

/// Timeout settings, all in milliseconds.
#[derive(Debug, Clone, Copy, PartialEq, Eq, Structural)]
pub struct Timeouts {
    /// Deadline for the whole negotiation that precedes a relay.
    pub handshake_ms: u64,
    /// Timeout for establishing the upstream connection.
    pub connect_ms: u64,
    /// Idle timeout for TCP relays.
    pub tcp_idle_ms: u64,
    /// Idle timeout for UDP associations.
    pub udp_idle_ms: u64,
}

/// Resource limits.
#[derive(Debug, Clone, Copy, PartialEq, Eq, Structural)]
pub struct Limits {
    /// Maximum number of concurrent connections (unbounded when `None`).
    pub max_connections: Option<usize>,
    /// Maximum number of concurrent connections from one IP address
    /// (unbounded when `None`).
    pub max_per_ip: Option<usize>,
    /// How many targets a UDP association remembers.
    pub udp_max_targets: usize,
    /// Outbound datagrams per second and UDP association (unbounded when
    /// `None`).
    pub udp_rate_pps: Option<u32>,
}

/// An inclusive UDP relay port range for binding association sockets.
/// `start == end` is a single fixed port.
#[derive(Debug, Clone, Copy, PartialEq, Eq, Structural)]
pub struct PortRange {
    /// First port in the range (inclusive); must be >= 1.
    pub start: u16,
    /// Last port in the range (inclusive); must be >= `start`.
    pub end: u16,
}

/// Why a text or two ports make no [`PortRange`].
#[derive(Debug, Clone, Copy, PartialEq, Eq, Structural)]
pub enum PortRangeError {
    /// No dash divides the text.
    NoDash,
    /// What precedes the dash is no port.
    BadStart,
    /// What follows the dash is no port.
    BadEnd,
    /// Port 0 stands for "any" and would defeat the range.
    ZeroStart,
    /// The range ends before it starts.
    Reversed,
}

/// UDP relay transport/addressing configuration.
#[derive(Debug, PartialEq, Eq)]
pub struct UdpConfig {
    /// Bind each association's relay socket inside this inclusive port range;
    /// `None` leaves the port to the operating system.
    pub port_range: Option<PortRange>,
    /// Host to advertise in UDP ASSOCIATE replies; the advertised port is always
    /// the bound one. `None` advertises the bound address.
    pub advertise: Option<AdvertiseHost>,
}

/// The host that UDP ASSOCIATE replies advertise.
#[derive(Debug, PartialEq, Eq)]
pub enum AdvertiseHost {
    Ip(IpAddr),
    /// Resolved anew for each association.
    Domain(String),
}

/// Local admin endpoint.
#[derive(Debug, PartialEq, Eq)]
pub struct AdminConfig {
    /// Whether the endpoint is served.
    pub enabled: bool,
    /// Path of its socket; `None` takes the default path.
    pub socket: Option<String>,
}

/// Destinations that are never relayed to.
#[derive(Debug, Clone, Copy, PartialEq, Eq, Structural)]
pub struct Egress {
    /// Refuse loopback addresses.
    pub block_loopback: bool,
    /// Refuse private and unique local addresses.
    pub block_private: bool,
    /// Refuse link-local addresses, cloud metadata services among them.
    pub block_link_local: bool,
    /// Refuse the all-zero addresses.
    pub block_unspecified: bool,
    /// Refuse multicast addresses.
    pub block_multicast: bool,
}

/// Name resolution.
#[derive(Debug, PartialEq, Eq)]
pub struct DnsConfig {
    /// Upstream servers; the system's resolvers where there are none.
    pub servers: Vec<SocketAddr>,
}

/// Command-line arguments.
#[derive(Debug, PartialEq, Eq)]
pub struct Cli {
    /// Path to a TOML configuration file.
    pub config: Option<String>,
    /// Override the listen address from the config file.
    pub listen: Option<String>,
    /// Disable the terminal UI.
    pub no_tui: bool,
}

/// The port of a DNS server whose address names none.
pub const DNS_PORT: u16 = 53;

impl AuthMethod {
    /// The name of the method in configuration files and logs.
    pub fn name(&self) -> (name: &'static str)
        ensures
            name@ == match self {
                AuthMethod::NoAuth => "none"@,
                AuthMethod::Password => "password"@,
            },
    {
        match self {
            AuthMethod::NoAuth => "none",
            AuthMethod::Password => "password",
        }
    }
}

impl Default for AuthMethod {
    fn default() -> (method: AuthMethod)
        ensures
            method == AuthMethod::NoAuth,
    {
        AuthMethod::NoAuth
    }
}

impl Default for AuthConfig {
    fn default() -> (auth: AuthConfig)
        ensures
            auth.method == AuthMethod::NoAuth,
            auth.users@.len() == 0,
    {
        AuthConfig { method: AuthMethod::NoAuth, users: Vec::new() }
    }
}

impl Timeouts {
    /// The timeouts of a config that names none.
    pub open spec fn spec_default() -> Timeouts {
        Timeouts {
            handshake_ms: 10_000,
            connect_ms: 10_000,
            tcp_idle_ms: 300_000,
            udp_idle_ms: 60_000,
        }
    }
}

impl Default for Timeouts {
    fn default() -> (timeouts: Timeouts)
        ensures
            timeouts == Timeouts::spec_default(),
    {
        Timeouts {
            handshake_ms: 10_000,
            connect_ms: 10_000,
            tcp_idle_ms: 300_000,
            udp_idle_ms: 60_000,
        }
    }
}

impl Limits {
    /// The limits of a config that names none.
    pub open spec fn spec_default() -> Limits {
        Limits {
            max_connections: None,
            max_per_ip: None,
            udp_max_targets: 1024,
            udp_rate_pps: None,
        }
    }
}

impl Default for Limits {
    fn default() -> (limits: Limits)
        ensures
            limits == Limits::spec_default(),
    {
        Limits { max_connections: None, max_per_ip: None, udp_max_targets: 1024, udp_rate_pps: None }
    }
}

impl PortRange {
    /// Whether the range is one that [`PortRange::new`] makes.
    pub open spec fn valid(self) -> bool {
        1 <= self.start <= self.end
    }

    /// Whether the range does not end before it starts.
    pub open spec fn ordered(self) -> bool {
        self.start <= self.end
    }

    /// How many ports the range holds.
    pub open spec fn width(self) -> nat {
        (self.end - self.start + 1) as nat
    }

    /// The range from `start` to `end`, both included. Rejects port 0 as
    /// `start`, and `start > end`.
    pub fn new(start: u16, end: u16) -> (range: Result<PortRange, PortRangeError>)
        ensures
            match range {
                Ok(range) => range == (PortRange { start, end }) && range.valid(),
                Err(PortRangeError::ZeroStart) => start == 0,
                Err(PortRangeError::Reversed) => start != 0 && start > end,
                Err(_) => false,
            },
    {
        if start == 0 {
            Err(PortRangeError::ZeroStart)
        } else if start > end {
            Err(PortRangeError::Reversed)
        } else {
            Ok(PortRange { start, end })
        }
    }

    /// Parse an inclusive `"start-end"` range. Rejects a missing dash,
    /// non-numeric bounds, port 0 as `start`, and `start > end`.
    pub fn parse(s: &str) -> (range: Result<PortRange, PortRangeError>)
        ensures
            range == parsed_range(s@),
    {
        let len: usize = s.unicode_len();
        let mut dash: usize = 0;
        while dash < len && s.get_char(dash) != '-'
            invariant
                dash <= len,
                len == s@.len(),
                forall|i: int| 0 <= i < dash ==> s@[i] != '-',
            decreases len - dash,
        {
            dash += 1;
        }
        proof {
            if dash < len {
                lemma_first_dash(s@, dash as int);
            }
        }
        if dash == len {
            return Err(PortRangeError::NoDash);
        }
        let (a, b) = trim_bounds(s, 0, dash);
        let start: u16 = match parse_port(s, a, b) {
            Some(start) => start,
            None => {
                return Err(PortRangeError::BadStart);
            },
        };
        let (a, b) = trim_bounds(s, dash + 1, len);
        let end: u16 = match parse_port(s, a, b) {
            Some(end) => end,
            None => {
                return Err(PortRangeError::BadEnd);
            },
        };
        PortRange::new(start, end)
    }
}

/// The index of the first dash in `text`.
pub open spec fn first_dash(text: Seq<char>) -> int {
    choose|dash: int|
        0 <= dash < text.len() && text[dash] == '-' && forall|i: int| 0 <= i < dash ==> text[i] != '-'
}

proof fn lemma_first_dash(text: Seq<char>, dash: int)
    requires
        0 <= dash < text.len(),
        text[dash] == '-',
        forall|i: int| 0 <= i < dash ==> text[i] != '-',
    ensures
        first_dash(text) == dash,
{
    let other = first_dash(text);
    assert(text[other] == '-');
    assert(!(other < dash) && !(dash < other));
}

/// The range that `text` spells: two ports around the first dash, each with or
/// without white space around it.
pub open spec fn parsed_range(text: Seq<char>) -> Result<PortRange, PortRangeError> {
    if !text.contains('-') {
        Err(PortRangeError::NoDash)
    } else {
        let dash = first_dash(text);
        match (
            port_number(trimmed(text.subrange(0, dash))),
            port_number(trimmed(text.subrange(dash + 1, text.len() as int))),
        ) {
            (None, _) => Err(PortRangeError::BadStart),
            (Some(_), None) => Err(PortRangeError::BadEnd),
            (Some(start), Some(end)) => if start == 0 {
                Err(PortRangeError::ZeroStart)
            } else if start > end {
                Err(PortRangeError::Reversed)
            } else {
                Ok(PortRange { start, end })
            },
        }
    }
}

impl Default for UdpConfig {
    fn default() -> (udp: UdpConfig)
        ensures
            udp.port_range is None,
            udp.advertise is None,
    {
        UdpConfig { port_range: None, advertise: None }
    }
}

impl AdminConfig {
    /// The path of the socket: the configured one, else the default.
    pub fn socket_path(&self) -> (path: &str)
        ensures
            path@ == match self.socket {
                Some(socket) => socket@,
                None => "/run/next-socks5/admin.sock"@,
            },
    {
        match &self.socket {
            Some(socket) => socket.as_str(),
            None => "/run/next-socks5/admin.sock",
        }
    }
}

impl Default for AdminConfig {
    fn default() -> (admin: AdminConfig)
        ensures
            admin.enabled,
            admin.socket is None,
    {
        AdminConfig { enabled: true, socket: None }
    }
}

impl Egress {
    /// A policy that refuses nothing.
    pub fn permissive() -> (egress: Egress)
        ensures
            forall|ip: IpAddr| !(#[trigger] egress.blocks(ip)),
    {
        Egress {
            block_loopback: false,
            block_private: false,
            block_link_local: false,
            block_unspecified: false,
            block_multicast: false,
        }
    }

    /// Whether the policy refuses `ip`, an IPv4-mapped address being judged by
    /// the IPv4 address it carries.
    pub open spec fn blocks(self, ip: IpAddr) -> bool {
        let ip = ip.spec_canonical();
        ||| self.block_loopback && ip.spec_loopback()
        ||| self.block_private && ip.spec_private()
        ||| self.block_link_local && ip.spec_link_local()
        ||| self.block_unspecified && ip.spec_unspecified()
        ||| self.block_multicast && ip.spec_multicast()
    }

    /// Whether the policy refuses `ip`, an IPv4-mapped address being judged by
    /// the IPv4 address it carries.
    pub fn is_blocked(&self, ip: IpAddr) -> (blocked: bool)
        ensures
            blocked == self.blocks(ip),
    {
        let ip: IpAddr = ip.to_canonical();
        (self.block_loopback && ip.is_loopback()) || (self.block_private && ip.is_private()) || (
        self.block_link_local && ip.is_link_local()) || (self.block_unspecified
            && ip.is_unspecified()) || (self.block_multicast && ip.is_multicast())
    }
}

impl Default for Egress {
    fn default() -> (egress: Egress)
        ensures
            egress.block_loopback,
            egress.block_private,
            egress.block_link_local,
            egress.block_unspecified,
            egress.block_multicast,
    {
        Egress {
            block_loopback: true,
            block_private: true,
            block_link_local: true,
            block_unspecified: true,
            block_multicast: true,
        }
    }
}

impl Default for DnsConfig {
    fn default() -> (dns: DnsConfig)
        ensures
            dns.servers@.len() == 0,
    {
        DnsConfig { servers: Vec::new() }
    }
}

impl DnsConfig {
    /// Whether queries can be sent to `server`: its address names one host, and
    /// its port is not 0.
    pub fn accepts(server: SocketAddr) -> (accepted: bool)
        ensures
            accepted == (server.spec_port() != 0 && !server.spec_ip().spec_unspecified()
                && !server.spec_ip().spec_multicast() && (server matches SocketAddr::V6(v6)
                ==> v6.scope_id == 0)),
    {
        let scoped: bool = match server {
            SocketAddr::V4(_) => false,
            SocketAddr::V6(v6) => v6.scope_id != 0,
        };
        server.port() != 0 && !server.ip().is_unspecified() && !server.ip().is_multicast()
            && !scoped
    }
}

impl Config {
    /// Whether every setting but where to listen is the default.
    pub open spec fn defaults_beyond_listen(self) -> bool {
        &&& self.auth.method == AuthMethod::NoAuth
        &&& self.auth.users@.len() == 0
        &&& self.timeouts == Timeouts::spec_default()
        &&& self.limits == Limits::spec_default()
        &&& self.public_addr is None
        &&& self.udp.port_range is None
        &&& self.udp.advertise is None
        &&& self.admin.enabled
        &&& self.admin.socket is None
        &&& self.egress.block_loopback
        &&& self.egress.block_private
        &&& self.egress.block_link_local
        &&& self.egress.block_unspecified
        &&& self.egress.block_multicast
        &&& self.dns.servers@.len() == 0
    }

    /// Whether this config differs from `other` in nothing but where to listen.
    pub open spec fn same_but_listen(self, other: Config) -> bool {
        &&& self.auth == other.auth
        &&& self.timeouts == other.timeouts
        &&& self.limits == other.limits
        &&& self.public_addr == other.public_addr
        &&& self.udp == other.udp
        &&& self.admin == other.admin
        &&& self.egress == other.egress
        &&& self.dns == other.dns
    }

    /// The configuration for the CLI options.
    ///
    /// `file` is what the file named by `cli.config` parsed to; where none is
    /// named the default config is the base. CLI overrides are then applied on
    /// top.
    pub fn load(cli: &Cli, file: Option<Config>) -> (config: Config)
        requires
            cli.config is Some <==> file is Some,
        ensures
            match file {
                Some(base) => config.same_but_listen(base) && config.listen@ == listen_override(
                    base.listen@,
                    *cli,
                ),
                None => config.defaults_beyond_listen() && config.listen@ == listen_override(
                    "127.0.0.1:1080"@,
                    *cli,
                ),
            },
    {
        let mut config: Config = match file {
            Some(config) => config,
            None => Config::default_config(),
        };
        apply_overrides(&mut config, cli);
        config
    }

    /// Build the default config: listen on `127.0.0.1:1080` with defaults.
    pub fn default_config() -> (config: Config)
        ensures
            config.listen@ == "127.0.0.1:1080"@,
            config.defaults_beyond_listen(),
    {
        Config {
            listen: "127.0.0.1:1080".to_owned(),
            auth: AuthConfig::default(),
            timeouts: Timeouts::default(),
            limits: Limits::default(),
            public_addr: None,
            udp: UdpConfig::default(),
            admin: AdminConfig::default(),
            egress: Egress::default(),
            dns: DnsConfig::default(),
        }
    }
}

/// Where to listen in place of `listen` once `cli` has had its say.
pub open spec fn listen_override(listen: Seq<char>, cli: Cli) -> Seq<char> {
    match cli.listen {
        Some(listen) => listen@,
        None => listen,
    }
}

/// Apply CLI overrides onto a parsed/default config in place.
pub fn apply_overrides(cfg: &mut Config, cli: &Cli)
    ensures
        final(cfg).listen@ == listen_override(old(cfg).listen@, *cli),
        final(cfg).same_but_listen(*old(cfg)),
{
    if let Some(listen) = &cli.listen {
        cfg.listen = listen.clone();
    }
}

/// The command line overrides where to listen exactly where it says so; what is
/// the same but for that is the same where that is too.
pub proof fn the_command_line_decides_where_to_listen(
    listen: Seq<char>,
    cli: Cli,
    config: Config,
    other: Config,
)
    ensures
        cli.listen matches Some(wanted) ==> listen_override(listen, cli) == wanted@,
        cli.listen is None ==> listen_override(listen, cli) == listen,
        config.same_but_listen(other) && config.listen == other.listen ==> config == other,
{
}

/// What a policy refuses: of each class exactly what its flag asks for. An
/// IPv4-mapped IPv6 address is refused as the IPv4 address that it carries.
pub proof fn policies_refuse_what_they_flag(
    egress: Egress,
    a: u8,
    b: u8,
    c: u8,
    d: u8,
    bits: u128,
)
    ensures
        ({
            let v4: u32 = (a * 0x100_0000 + b * 0x1_0000 + c * 0x100 + d) as u32;
            let refused = (egress.block_loopback && a == 127) || (egress.block_private && (a == 10
                || (a == 172 && 16 <= b <= 31) || (a == 192 && b == 168))) || (
            egress.block_link_local && a == 169 && b == 254) || (egress.block_unspecified && v4
                == 0) || (egress.block_multicast && 224 <= a <= 239);
            &&& egress.blocks(IpAddr::V4(Ipv4Addr { bits: v4 })) == refused
            &&& egress.blocks(IpAddr::V6(Ipv6Addr { bits: (0xffff_0000_0000 + v4) as u128 }))
                == refused
        }),
        bits < 0xffff_0000_0000 || bits > 0xffff_ffff_ffff ==> egress.blocks(
            IpAddr::V6(Ipv6Addr { bits }),
        ) == ((egress.block_loopback && bits == 1) || (egress.block_private
            && 0xfc00_0000_0000_0000_0000_0000_0000_0000 <= bits
            < 0xfe00_0000_0000_0000_0000_0000_0000_0000) || (egress.block_link_local
            && 0xfe80_0000_0000_0000_0000_0000_0000_0000 <= bits
            < 0xfec0_0000_0000_0000_0000_0000_0000_0000) || (egress.block_unspecified && bits == 0)
            || (egress.block_multicast && bits >= 0xff00_0000_0000_0000_0000_0000_0000_0000)),
{
    let v4: u32 = (a * 0x100_0000 + b * 0x1_0000 + c * 0x100 + d) as u32;
    ipv4_classes_follow_the_octets(a, b, c, d);
    ipv6_classes_follow_the_range(bits);
    mapped_addresses_stand_for_ipv4(bits, v4);
}

proof fn lemma_range_parts(left: Seq<char>, right: Seq<char>)
    requires
        !left.contains('-'),
    ensures
        ({
            let text = left + seq!['-'] + right;
            &&& text.contains('-')
            &&& text.subrange(0, first_dash(text)) == left
            &&& text.subrange(first_dash(text) + 1, text.len() as int) == right
        }),
{
    let text = left + seq!['-'] + right;
    let dash = left.len() as int;
    assert(text[dash] == '-');
    assert forall|i: int| 0 <= i < dash implies text[i] != '-' by {
        assert(text[i] == left[i]);
    }
    lemma_first_dash(text, dash);
    assert(text.subrange(0, dash) =~= left);
    assert(text.subrange(dash + 1, text.len() as int) =~= right);
}

/// Two ports in decimal around a dash spell the range between them, white space or
/// not, unless the first is zero or greater than the second.
pub proof fn ranges_are_spelled(
    start: u16,
    end: u16,
    before: Seq<char>,
    after: Seq<char>,
    ahead: Seq<char>,
    behind: Seq<char>,
)
    requires
        forall|i: int| 0 <= i < before.len() ==> is_space(#[trigger] before[i]),
        forall|i: int| 0 <= i < after.len() ==> is_space(#[trigger] after[i]),
        forall|i: int| 0 <= i < ahead.len() ==> is_space(#[trigger] ahead[i]),
        forall|i: int| 0 <= i < behind.len() ==> is_space(#[trigger] behind[i]),
    ensures
        parsed_range(
            (before + decimal(start as nat) + after) + seq!['-'] + (ahead + decimal(end as nat)
                + behind),
        ) == (if start == 0 {
            Err::<PortRange, PortRangeError>(PortRangeError::ZeroStart)
        } else if start > end {
            Err::<PortRange, PortRangeError>(PortRangeError::Reversed)
        } else {
            Ok::<PortRange, PortRangeError>(PortRange { start, end })
        }),
{
    let left = before + decimal(start as nat) + after;
    let right = ahead + decimal(end as nat) + behind;
    decimals_read_back(start as nat);
    decimals_read_back(end as nat);
    assert(is_digit(decimal(start as nat)[0]) && is_digit(decimal(start as nat).last()));
    assert(is_digit(decimal(end as nat)[0]) && is_digit(decimal(end as nat).last()));
    trimming_keeps_what_is_between(before, decimal(start as nat), after);
    trimming_keeps_what_is_between(ahead, decimal(end as nat), behind);
    assert forall|i: int| 0 <= i < left.len() implies left[i] != '-' by {
        if i < before.len() {
            assert(left[i] == before[i]);
        } else if i < before.len() + decimal(start as nat).len() {
            assert(left[i] == decimal(start as nat)[i - before.len()]);
        } else {
            assert(left[i] == after[i - before.len() - decimal(start as nat).len()]);
        }
    }
    assert(!left.contains('-'));
    lemma_range_parts(left, right);
}

/// A text without a dash is no range; what stands before the first dash must be a
/// port, and so must all that follows it.
pub proof fn ranges_fail_for_cause(text: Seq<char>, left: Seq<char>, right: Seq<char>)
    requires
        !left.contains('-'),
    ensures
        !text.contains('-') ==> parsed_range(text) == Err::<PortRange, PortRangeError>(
            PortRangeError::NoDash,
        ),
        parsed_range(left + seq!['-'] + right) == Err::<PortRange, PortRangeError>(
            PortRangeError::BadStart,
        ) <==> port_number(trimmed(left)) is None,
        parsed_range(left + seq!['-'] + right) == Err::<PortRange, PortRangeError>(
            PortRangeError::BadEnd,
        ) <==> port_number(trimmed(left)) is Some && port_number(trimmed(right)) is None,
        parsed_range(left + seq!['-'] + right) matches Ok(range) ==> port_number(trimmed(left))
            == Some(range.start) && port_number(trimmed(right)) == Some(range.end)
            && range.valid(),
{
    lemma_range_parts(left, right);
}

} // verus!
