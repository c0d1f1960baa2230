//! IP and socket addresses as plain integers.

use vstd::prelude::*;

use crate::bytes::{be_bytes, be_value, lemma_be_bytes_len, lemma_be_bytes_of_value, lemma_be_limits, lemma_be_value_of_bytes, push_be};

verus! {

/// An IPv4 address.
#[derive(Debug, Clone, Copy, PartialEq, Eq, Structural, Hash)]
pub struct Ipv4Addr {
    /// The address as one number, first octet most significant.
    pub bits: u32,
}

/// An IPv6 address.
#[derive(Debug, Clone, Copy, PartialEq, Eq, Structural, Hash)]
pub struct Ipv6Addr {
    /// The address as one number, first octet most significant.
    pub bits: u128,
}

/// An IP address of either family.
#[derive(Debug, Clone, Copy, PartialEq, Eq, Structural, Hash)]
pub enum IpAddr {
    V4(Ipv4Addr),
    V6(Ipv6Addr),
}

/// An IPv4 socket address.
#[derive(Debug, Clone, Copy, PartialEq, Eq, Structural, Hash)]
pub struct SocketAddrV4 {
    pub ip: Ipv4Addr,
    pub port: u16,
}

/// An IPv6 socket address.
#[derive(Debug, Clone, Copy, PartialEq, Eq, Structural, Hash)]
pub struct SocketAddrV6 {
    pub ip: Ipv6Addr,
    pub port: u16,
    pub flowinfo: u32,
    pub scope_id: u32,
}

/// A socket address of either family.
#[derive(Debug, Clone, Copy, PartialEq, Eq, Structural, Hash)]
pub enum SocketAddr {
    V4(SocketAddrV4),
    V6(SocketAddrV6),
}

impl Ipv4Addr {
    /// The octets in wire order.
    pub open spec fn spec_octets(self) -> Seq<u8> {
        be_bytes(self.bits as nat, 4)
    }

    /// The address `a.b.c.d`.
    pub fn new(a: u8, b: u8, c: u8, d: u8) -> (ip: Ipv4Addr)
        ensures
            ip.spec_octets() == seq![a, b, c, d],
            ip.bits == a * 0x100_0000 + b * 0x1_0000 + c * 0x100 + d,
    {
        let bits: u32 = a as u32 * 0x100_0000 + b as u32 * 0x1_0000 + c as u32 * 0x100 + d as u32;
        proof {
            let octets = seq![a, b, c, d];
            lemma_be_value_of_four(octets);
            lemma_be_bytes_of_value(octets);
        }
        Ipv4Addr { bits }
    }

    /// The all-zero address `0.0.0.0`.
    pub fn unspecified() -> (ip: Ipv4Addr)
        ensures
            ip.bits == 0,
    {
        Ipv4Addr { bits: 0 }
    }

    /// The loopback address `127.0.0.1`.
    pub fn localhost() -> (ip: Ipv4Addr)
        ensures
            ip.bits == 0x7f00_0001,
    {
        Ipv4Addr { bits: 0x7f00_0001 }
    }

    /// The octets in wire order.
    pub fn octets(&self) -> (octets: Vec<u8>)
        ensures
            octets@ == self.spec_octets(),
            octets@.len() == 4,
    {
        let mut octets: Vec<u8> = Vec::new();
        push_be(&mut octets, self.bits as u128, 4);
        proof {
            lemma_be_bytes_len(self.bits as nat, 4);
            assert(octets@ =~= self.spec_octets());
        }
        octets
    }
}

/// Four bytes, read as one number.
pub proof fn lemma_be_value_of_four(octets: Seq<u8>)
    requires
        octets.len() == 4,
    ensures
        be_value(octets) == octets[0] * 0x100_0000 + octets[1] * 0x1_0000 + octets[2] * 0x100 + octets[3],
{
    reveal_with_fuel(be_value, 5);
}

impl Ipv6Addr {
    /// The octets in wire order.
    pub open spec fn spec_octets(self) -> Seq<u8> {
        be_bytes(self.bits as nat, 16)
    }

    /// The eight 16-bit groups, most significant first.
    pub open spec fn spec_segments(self) -> Seq<nat> {
        let o = self.spec_octets();
        Seq::new(8, |i: int| (o[2 * i] * 256 + o[2 * i + 1]) as nat)
    }

    /// The octets in wire order.
    pub fn octets(&self) -> (octets: Vec<u8>)
        ensures
            octets@ == self.spec_octets(),
            octets@.len() == 16,
    {
        let mut octets: Vec<u8> = Vec::new();
        push_be(&mut octets, self.bits, 16);
        proof {
            lemma_be_bytes_len(self.bits as nat, 16);
            assert(octets@ =~= self.spec_octets());
        }
        octets
    }

    /// The eight 16-bit groups, most significant first.
    pub fn segments(&self) -> (segments: Vec<u16>)
        ensures
            segments@.map_values(|s: u16| s as nat) == self.spec_segments(),
    {
        let octets: Vec<u8> = self.octets();
        let mut segments: Vec<u16> = Vec::new();
        let mut i: usize = 0;
        while i < 8
            invariant
                i <= 8,
                octets@ == self.spec_octets(),
                octets@.len() == 16,
                segments@.len() == i,
                forall|j: int| 0 <= j < i ==> segments@[j] as nat == #[trigger] self.spec_segments()[j],
            decreases 8 - i,
        {
            segments.push(octets[2 * i] as u16 * 256 + octets[2 * i + 1] as u16);
            i += 1;
        }
        assert(segments@.map_values(|s: u16| s as nat) =~= self.spec_segments());
        segments
    }

    /// The all-zero address `::`.
    pub fn unspecified() -> (ip: Ipv6Addr)
        ensures
            ip.bits == 0,
    {
        Ipv6Addr { bits: 0 }
    }

    /// The loopback address `::1`.
    pub fn localhost() -> (ip: Ipv6Addr)
        ensures
            ip.bits == 1,
    {
        Ipv6Addr { bits: 1 }
    }

    /// The IPv4 address inside an IPv4-mapped one (`::ffff:a.b.c.d`).
    pub open spec fn spec_mapped(self) -> Option<Ipv4Addr> {
        if self.bits / 0x1_0000_0000 == 0xffff {
            Some(Ipv4Addr { bits: (self.bits % 0x1_0000_0000) as u32 })
        } else {
            None
        }
    }

    /// The IPv4 address inside an IPv4-mapped one (`::ffff:a.b.c.d`).
    pub fn mapped(&self) -> (v4: Option<Ipv4Addr>)
        ensures
            v4 == self.spec_mapped(),
    {
        if self.bits / 0x1_0000_0000 == 0xffff {
            Some(Ipv4Addr { bits: (self.bits % 0x1_0000_0000) as u32 })
        } else {
            None
        }
    }
}

impl IpAddr {
    /// Replace an IPv4-mapped IPv6 address by the IPv4 address it carries.
    pub open spec fn spec_canonical(self) -> IpAddr {
        match self {
            IpAddr::V4(_) => self,
            IpAddr::V6(v6) => match v6.spec_mapped() {
                Some(v4) => IpAddr::V4(v4),
                None => self,
            },
        }
    }

    /// Replace an IPv4-mapped IPv6 address by the IPv4 address it carries.
    pub fn to_canonical(&self) -> (ip: IpAddr)
        ensures
            ip == self.spec_canonical(),
    {
        match self {
            IpAddr::V4(_) => *self,
            IpAddr::V6(v6) => match v6.mapped() {
                Some(v4) => IpAddr::V4(v4),
                None => *self,
            },
        }
    }

    /// Whether this is an IPv4 address.
    pub fn is_ipv4(&self) -> (v4: bool)
        ensures
            v4 == (self is V4),
    {
        match self {
            IpAddr::V4(_) => true,
            IpAddr::V6(_) => false,
        }
    }

    /// The all-zero address of either family.
    pub open spec fn spec_unspecified(self) -> bool {
        match self {
            IpAddr::V4(v4) => v4.bits == 0,
            IpAddr::V6(v6) => v6.bits == 0,
        }
    }

    /// Whether this is the all-zero address of its family.
    pub fn is_unspecified(&self) -> (unspecified: bool)
        ensures
            unspecified == self.spec_unspecified(),
    {
        match self {
            IpAddr::V4(v4) => v4.bits == 0,
            IpAddr::V6(v6) => v6.bits == 0,
        }
    }

    /// `127.0.0.0/8`, or `::1`.
    pub open spec fn spec_loopback(self) -> bool {
        match self {
            IpAddr::V4(v4) => v4.bits / 0x100_0000 == 127,
            IpAddr::V6(v6) => v6.bits == 1,
        }
    }

    /// Whether this is a loopback address: `127.0.0.0/8`, or `::1`.
    pub fn is_loopback(&self) -> (loopback: bool)
        ensures
            loopback == self.spec_loopback(),
    {
        match self {
            IpAddr::V4(v4) => v4.bits / 0x100_0000 == 127,
            IpAddr::V6(v6) => v6.bits == 1,
        }
    }

    /// `224.0.0.0/4`, or `ff00::/8`.
    pub open spec fn spec_multicast(self) -> bool {
        match self {
            IpAddr::V4(v4) => v4.bits / 0x1000_0000 == 14,
            IpAddr::V6(v6) => v6.bits / 0x100_0000_0000_0000_0000_0000_0000_0000 == 0xff,
        }
    }

    /// Whether this is a multicast address: `224.0.0.0/4`, or `ff00::/8`.
    pub fn is_multicast(&self) -> (multicast: bool)
        ensures
            multicast == self.spec_multicast(),
    {
        match self {
            IpAddr::V4(v4) => v4.bits / 0x1000_0000 == 14,
            IpAddr::V6(v6) => v6.bits / 0x100_0000_0000_0000_0000_0000_0000_0000 == 0xff,
        }
    }

    /// `10.0.0.0/8`, `172.16.0.0/12`, `192.168.0.0/16`, or `fc00::/7`.
    pub open spec fn spec_private(self) -> bool {
        match self {
            IpAddr::V4(v4) => {
                ||| v4.bits / 0x100_0000 == 10
                ||| v4.bits / 0x10_0000 == 0xac1
                ||| v4.bits / 0x1_0000 == 0xc0a8
            },
            IpAddr::V6(v6) => v6.bits / 0x200_0000_0000_0000_0000_0000_0000_0000 == 0x7e,
        }
    }

    /// Whether this is a private address: `10.0.0.0/8`, `172.16.0.0/12`,
    /// `192.168.0.0/16`, or a unique local IPv6 address (`fc00::/7`).
    pub fn is_private(&self) -> (private: bool)
        ensures
            private == self.spec_private(),
    {
        match self {
            IpAddr::V4(v4) => v4.bits / 0x100_0000 == 10 || v4.bits / 0x10_0000 == 0xac1
                || v4.bits / 0x1_0000 == 0xc0a8,
            IpAddr::V6(v6) => v6.bits / 0x200_0000_0000_0000_0000_0000_0000_0000 == 0x7e,
        }
    }

    /// `169.254.0.0/16`, or `fe80::/10`.
    pub open spec fn spec_link_local(self) -> bool {
        match self {
            IpAddr::V4(v4) => v4.bits / 0x1_0000 == 0xa9fe,
            IpAddr::V6(v6) => v6.bits / 0x40_0000_0000_0000_0000_0000_0000_0000 == 0x3fa,
        }
    }

    /// Whether this is a link-local address: `169.254.0.0/16`, or `fe80::/10`.
    pub fn is_link_local(&self) -> (link_local: bool)
        ensures
            link_local == self.spec_link_local(),
    {
        match self {
            IpAddr::V4(v4) => v4.bits / 0x1_0000 == 0xa9fe,
            IpAddr::V6(v6) => v6.bits / 0x40_0000_0000_0000_0000_0000_0000_0000 == 0x3fa,
        }
    }
}

impl SocketAddr {
    /// The address `ip` with `port`, without flow label or scope.
    pub open spec fn spec_new(ip: IpAddr, port: u16) -> SocketAddr {
        match ip {
            IpAddr::V4(ip) => SocketAddr::V4(SocketAddrV4 { ip, port }),
            IpAddr::V6(ip) => SocketAddr::V6(SocketAddrV6 { ip, port, flowinfo: 0, scope_id: 0 }),
        }
    }

    /// The address `ip` with `port`, without flow label or scope.
    pub fn new(ip: IpAddr, port: u16) -> (addr: SocketAddr)
        ensures
            addr == SocketAddr::spec_new(ip, port),
    {
        match ip {
            IpAddr::V4(ip) => SocketAddr::V4(SocketAddrV4 { ip, port }),
            IpAddr::V6(ip) => SocketAddr::V6(SocketAddrV6 { ip, port, flowinfo: 0, scope_id: 0 }),
        }
    }

    /// The IP address.
    pub open spec fn spec_ip(self) -> IpAddr {
        match self {
            SocketAddr::V4(v4) => IpAddr::V4(v4.ip),
            SocketAddr::V6(v6) => IpAddr::V6(v6.ip),
        }
    }

    /// The IP address.
    pub fn ip(&self) -> (ip: IpAddr)
        ensures
            ip == self.spec_ip(),
    {
        match self {
            SocketAddr::V4(v4) => IpAddr::V4(v4.ip),
            SocketAddr::V6(v6) => IpAddr::V6(v6.ip),
        }
    }

    /// The port.
    pub open spec fn spec_port(self) -> u16 {
        match self {
            SocketAddr::V4(v4) => v4.port,
            SocketAddr::V6(v6) => v6.port,
        }
    }

    /// The port.
    pub fn port(&self) -> (port: u16)
        ensures
            port == self.spec_port(),
    {
        match self {
            SocketAddr::V4(v4) => v4.port,
            SocketAddr::V6(v6) => v6.port,
        }
    }
}

/// A socket address holds the IP address and the port that it was made of, and
/// nothing else.
pub proof fn socket_addresses_hold_their_parts(
    ip: IpAddr,
    port: u16,
    v4: SocketAddrV4,
    v6: SocketAddrV6,
)
    ensures
        SocketAddr::spec_new(ip, port).spec_ip() == ip,
        SocketAddr::spec_new(ip, port).spec_port() == port,
        SocketAddr::spec_new(ip, port) matches SocketAddr::V6(made) ==> made.flowinfo == 0
            && made.scope_id == 0,
        SocketAddr::V4(v4).spec_ip() == IpAddr::V4(v4.ip),
        SocketAddr::V6(v6).spec_ip() == IpAddr::V6(v6.ip),
        SocketAddr::V4(v4).spec_port() == v4.port,
        SocketAddr::V6(v6).spec_port() == v6.port,
{
}

/// What the address `a.b.c.d` is follows from its first two octets, but for the
/// all-zero one.
pub proof fn ipv4_classes_follow_the_octets(a: u8, b: u8, c: u8, d: u8)
    ensures
        ({
            let ip = IpAddr::V4(
                Ipv4Addr { bits: (a * 0x100_0000 + b * 0x1_0000 + c * 0x100 + d) as u32 },
            );
            &&& ip.spec_unspecified() <==> a == 0 && b == 0 && c == 0 && d == 0
            &&& ip.spec_loopback() <==> a == 127
            &&& ip.spec_multicast() <==> 224 <= a <= 239
            &&& ip.spec_link_local() <==> a == 169 && b == 254
            &&& ip.spec_private() <==> a == 10 || (a == 172 && 16 <= b <= 31) || (a == 192 && b
                == 168)
            &&& ip.spec_canonical() == ip
        }),
{
}

/// What an IPv6 address is follows from where it lies.
pub proof fn ipv6_classes_follow_the_range(bits: u128)
    ensures
        ({
            let ip = IpAddr::V6(Ipv6Addr { bits });
            &&& ip.spec_unspecified() <==> bits == 0
            &&& ip.spec_loopback() <==> bits == 1
            &&& ip.spec_multicast() <==> bits >= 0xff00_0000_0000_0000_0000_0000_0000_0000
            &&& ip.spec_link_local() <==> 0xfe80_0000_0000_0000_0000_0000_0000_0000 <= bits
                < 0xfec0_0000_0000_0000_0000_0000_0000_0000
            &&& ip.spec_private() <==> 0xfc00_0000_0000_0000_0000_0000_0000_0000 <= bits
                < 0xfe00_0000_0000_0000_0000_0000_0000_0000
        }),
{
}

/// An IPv6 address from `::ffff:0.0.0.0` to `::ffff:255.255.255.255` stands for
/// the IPv4 address at its end; any other stands for itself.
pub proof fn mapped_addresses_stand_for_ipv4(bits: u128, v4: u32)
    ensures
        IpAddr::V6(Ipv6Addr { bits: (0xffff_0000_0000 + v4) as u128 }).spec_canonical()
            == IpAddr::V4(Ipv4Addr { bits: v4 }),
        bits < 0xffff_0000_0000 || bits > 0xffff_ffff_ffff ==> IpAddr::V6(
            Ipv6Addr { bits },
        ).spec_canonical() == IpAddr::V6(Ipv6Addr { bits }),
        IpAddr::V4(Ipv4Addr { bits: v4 }).spec_canonical() == IpAddr::V4(Ipv4Addr { bits: v4 }),
{
}

proof fn lemma_be_value_of_pair(bytes: Seq<u8>)
    requires
        bytes.len() >= 2,
    ensures
        be_value(bytes) == be_value(bytes.take(bytes.len() - 2)) * 0x1_0000 + (bytes[bytes.len() - 2]
            * 256 + bytes[bytes.len() - 1]),
{
    reveal_with_fuel(be_value, 3);
    assert(bytes.drop_last().drop_last() =~= bytes.take(bytes.len() - 2));
}

/// The groups of an IPv6 address have 16 bits each, and each weighs 65536 times as
/// much as the next.
pub proof fn segments_weigh_by_place(ip: Ipv6Addr)
    ensures
        ip.spec_segments().len() == 8,
        forall|i: int| 0 <= i < 8 ==> #[trigger] ip.spec_segments()[i] < 0x1_0000,
        ({
            let s = ip.spec_segments();
            ip.bits == ((((((s[0] * 0x1_0000 + s[1]) * 0x1_0000 + s[2]) * 0x1_0000 + s[3])
                * 0x1_0000 + s[4]) * 0x1_0000 + s[5]) * 0x1_0000 + s[6]) * 0x1_0000 + s[7]
        }),
{
    let o = ip.spec_octets();
    lemma_be_limits();
    lemma_be_bytes_len(ip.bits as nat, 16);
    lemma_be_value_of_bytes(ip.bits as nat, 16);
    lemma_be_value_of_pair(o);
    lemma_be_value_of_pair(o.take(14));
    lemma_be_value_of_pair(o.take(12));
    lemma_be_value_of_pair(o.take(10));
    lemma_be_value_of_pair(o.take(8));
    lemma_be_value_of_pair(o.take(6));
    lemma_be_value_of_pair(o.take(4));
    lemma_be_value_of_pair(o.take(2));
    assert(o.take(14).take(12) =~= o.take(12));
    assert(o.take(12).take(10) =~= o.take(10));
    assert(o.take(10).take(8) =~= o.take(8));
    assert(o.take(8).take(6) =~= o.take(6));
    assert(o.take(6).take(4) =~= o.take(4));
    assert(o.take(4).take(2) =~= o.take(2));
    assert(o.take(2).take(0) =~= Seq::<u8>::empty());
}

} // verus!
