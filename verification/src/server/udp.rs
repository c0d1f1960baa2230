//! UDP ASSOCIATE relay (RFC 1928 section 7).
//!
//! The association rides on a TCP control connection: the server binds an
//! ephemeral UDP socket reachable by the client, advertises it in the SOCKS
//! reply, then relays datagrams between the client and arbitrary targets until
//! the control connection closes or the association goes idle.
//!
//! Instants are nanoseconds on one clock, the same for all calls.

use std::collections::VecDeque;

use vstd::prelude::*;

use crate::config::{AdvertiseHost, Egress, PortRange};
use crate::error::{IoErrorKind, IoFailure, Socks5Error};
use crate::metrics::{Event, EventView};
use crate::net::{IpAddr, SocketAddr, SocketAddrV4, SocketAddrV6};
use crate::protocol::address::{spells_address, Address, AddressView};
use crate::protocol::udp::{datagram, datagrams_are_spelled, decap_inverts_encap, decap_ref, encap, encapsulated, DatagramView, UdpError};
use crate::server::connect::{address_of, literal, socket_addr_to_address};
use crate::text::{decimal, push_decimal};

verus! {

/// One second.
pub const SECOND: u64 = 1_000_000_000;

/// The address to bind an association's relay socket on: the one that the client
/// reached the server at. Dual-stack listeners report IPv4 peers through
/// IPv4-mapped IPv6 addresses; those clients get an IPv4 relay, so that the
/// advertised address and the socket are of the same family.
pub fn relay_bind_ip(control_local: SocketAddr) -> (ip: IpAddr)
    ensures
        ip == control_local.spec_ip().spec_canonical(),
{
    control_local.ip().to_canonical()
}

/// A walk over a port range that starts at a rotating offset, so concurrent
/// associations spread across the range instead of all probing the first port.
pub struct PortScan {
    range: PortRange,
    base: u32,
    tried: u32,
}

/// What a [`PortScan`] stands for.
#[verifier::ext_equal]
pub struct PortScanView {
    pub range: PortRange,
    /// Where the walk starts.
    pub base: u32,
    /// How many ports were offered.
    pub tried: nat,
}

impl View for PortScan {
    type V = PortScanView;

    closed spec fn view(&self) -> PortScanView {
        PortScanView { range: self.range, base: self.base, tried: self.tried as nat }
    }
}

/// The port that a walk from `base` offers in turn `i`. Behind the last port of
/// the range comes its first one.
pub open spec fn scan_port(range: PortRange, base: u32, i: nat) -> u16 {
    (range.start + (base as nat % range.width() + i) % range.width()) as u16
}

impl PortScan {
    /// Start a walk over `range` at `base`.
    pub fn new(range: PortRange, base: u32) -> (scan: PortScan)
        requires
            range.ordered(),
        ensures
            scan@ == (PortScanView { range, base, tried: 0 }),
            scan.wf(),
    {
        let scan = PortScan { range, base, tried: 0 };
        assert(scan@ =~= (PortScanView { range, base, tried: 0 }));
        scan
    }

    /// Whether the range is not reversed and no more ports than it holds were offered.
    pub open spec fn wf(self) -> bool {
        self@.wf()
    }

    /// The next port to try, until the range is exhausted.
    pub fn next(&mut self) -> (port: Option<u16>)
        requires
            old(self).wf(),
        ensures
            final(self).wf(),
            if old(self)@.tried < old(self)@.range.width() {
                port == Some(old(self)@.upcoming()) && final(self)@ == old(self)@.advanced()
            } else {
                port is None && final(self)@ == old(self)@
            },
    {
        let width: u32 = (self.range.end - self.range.start) as u32 + 1;
        if self.tried >= width {
            return None;
        }
        let start: u32 = self.base % width;
        let step: u32 = (start + self.tried) % width;
        let port: u16 = self.range.start + step as u16;
        self.tried += 1;
        assert(self@ =~= old(self)@.advanced());
        Some(port)
    }
}

/// Whether a bind that failed with an error of `kind` is followed by one on the
/// next port.
pub open spec fn retried(kind: IoErrorKind) -> bool {
    kind == IoErrorKind::AddrInUse || kind == IoErrorKind::PermissionDenied
}

/// Whether a failed bind should be followed by one on the next port: the port is
/// taken, or privileged. Any other failure is fatal.
pub fn bind_retries(kind: IoErrorKind) -> (retry: bool)
    ensures
        retry == retried(kind),
{
    match kind {
        IoErrorKind::AddrInUse => true,
        IoErrorKind::PermissionDenied => true,
        _ => false,
    }
}

/// The binding of one association's relay socket: with no range the system
/// assigns a port, with one its ports are tried in turn.
pub struct RelayBind {
    scan: Option<PortScan>,
}

/// What follows a failed bind of a relay socket.
#[derive(Debug, PartialEq, Eq)]
pub enum BindStep {
    /// Bind this port.
    Try(u16),
    /// Give up and pass the failure of the bind on.
    PassOn,
    /// Give up: every port in the range is unavailable.
    Exhausted(IoFailure),
}

impl View for RelayBind {
    type V = Option<PortScanView>;

    closed spec fn view(&self) -> Option<PortScanView> {
        match self.scan {
            Some(scan) => Some(scan@),
            None => None,
        }
    }
}

impl PortScanView {
    /// Whether the range is not reversed and no more ports than it holds were offered.
    pub open spec fn wf(self) -> bool {
        self.range.ordered() && self.tried <= self.range.width()
    }

    /// After another port was offered.
    pub open spec fn advanced(self) -> PortScanView {
        PortScanView { tried: self.tried + 1, ..self }
    }

    /// The port to offer next.
    pub open spec fn upcoming(self) -> u16 {
        scan_port(self.range, self.base, self.tried)
    }
}

impl RelayBind {
    /// Whether the ports that were tried come from a range that is not reversed.
    pub open spec fn wf(self) -> bool {
        self@ matches Some(scan) ==> scan.wf()
    }

    /// Start to bind in `range`, from offset `base` on. Returns the port to bind
    /// first; 0 lets the system assign one.
    pub fn new(range: Option<PortRange>, base: u32) -> (bind: (RelayBind, u16))
        requires
            range matches Some(range) ==> range.ordered(),
        ensures
            bind.0.wf(),
            match range {
                Some(range) => bind.0@ == Some(PortScanView { range, base, tried: 1 }) && bind.1
                    == scan_port(range, base, 0),
                None => bind.0@ is None && bind.1 == 0,
            },
    {
        match range {
            Some(range) => {
                let mut scan: PortScan = PortScan::new(range, base);
                let first: u16 = match scan.next() {
                    Some(port) => port,
                    None => 0,
                };
                assert(scan@ =~= (PortScanView { range, base, tried: 1 }));
                (RelayBind { scan: Some(scan) }, first)
            },
            None => (RelayBind { scan: None }, 0),
        }
    }

    /// A bind failed with an error of `kind`: the next port of the range is tried
    /// where this one is taken or privileged, until all were.
    pub fn failed(&mut self, kind: IoErrorKind) -> (step: BindStep)
        requires
            old(self).wf(),
        ensures
            final(self).wf(),
            match old(self)@ {
                Some(scan) => if !retried(kind) {
                    step == BindStep::PassOn && final(self)@ == old(self)@
                } else if scan.tried < scan.range.width() {
                    step == BindStep::Try(scan.upcoming()) && final(self)@ == Some(scan.advanced())
                } else {
                    &&& step matches BindStep::Exhausted(failure)
                    &&& failure.kind == IoErrorKind::AddrInUse
                    &&& failure.message@ == "udp_port_range exhausted"@
                    &&& final(self)@ == old(self)@
                },
                None => step == BindStep::PassOn && final(self)@ == old(self)@,
            },
    {
        match &mut self.scan {
            Some(scan) => {
                if !bind_retries(kind) {
                    return BindStep::PassOn;
                }
                match scan.next() {
                    Some(port) => BindStep::Try(port),
                    None => BindStep::Exhausted(
                        IoFailure {
                            kind: IoErrorKind::AddrInUse,
                            message: "udp_port_range exhausted".to_owned(),
                        },
                    ),
                }
            },
            None => BindStep::PassOn,
        }
    }
}

/// Every port that a walk offers lies in the range.
pub proof fn scan_stays_in_range(range: PortRange, base: u32, i: nat)
    requires
        range.ordered(),
    ensures
        range.start <= scan_port(range, base, i) <= range.end,
{
    let offset = base as nat % range.width() + i;
    assert(offset % range.width() < range.width()) by (nonlinear_arith)
        requires
            range.width() > 0,
    ;
}

/// Within one walk every port of the range is offered exactly once.
pub proof fn scan_offers_every_port_once(range: PortRange, base: u32, port: u16)
    requires
        range.ordered(),
        range.start <= port <= range.end,
    ensures
        exists|i: nat|
            i < range.width() && #[trigger] scan_port(range, base, i) == port && (forall|j: nat|
                j < range.width() && #[trigger] scan_port(range, base, j) == port ==> j == i),
{
    let width = range.width() as int;
    let start = scan_start(range, base);
    let want = port - range.start;
    lemma_scan_port(range, base, 0);
    let i = if want >= start {
        want - start
    } else {
        want - start + width
    };
    lemma_scan_port(range, base, i as nat);
    assert forall|j: nat|
        j < range.width() && #[trigger] scan_port(range, base, j) == port implies j == i by {
        lemma_scan_port(range, base, j);
    }
}

/// How far into the range a walk from `base` starts.
spec fn scan_start(range: PortRange, base: u32) -> int {
    (base as nat % range.width()) as int
}

#[verifier::spinoff_prover]
proof fn lemma_scan_port(range: PortRange, base: u32, i: nat)
    requires
        range.ordered(),
        i < range.width(),
    ensures
        0 <= scan_start(range, base) < range.width(),
        scan_port(range, base, i) == range.start + (if scan_start(range, base) + i < range.width() {
            scan_start(range, base) + i
        } else {
            scan_start(range, base) + i - range.width()
        }),
{
    let width = range.width() as int;
    vstd::arithmetic::div_mod::lemma_mod_bound(base as int, width);
    lemma_wraps_once(scan_start(range, base) + i, width);
}

proof fn lemma_wraps_once(offset: int, width: int)
    requires
        0 <= offset < 2 * width,
    ensures
        offset % width == (if offset < width {
            offset
        } else {
            offset - width
        }),
{
    if offset < width {
        vstd::arithmetic::div_mod::lemma_small_mod(offset as nat, width as nat);
    } else {
        vstd::arithmetic::div_mod::lemma_fundamental_div_mod_converse(
            offset,
            width,
            1,
            offset - width,
        );
    }
}

impl PortScanView {
    /// The port that a walk ends on where just the `free` ones can be bound.
    pub open spec fn first_free(self, free: spec_fn(u16) -> bool) -> Option<u16>
        decreases self.range.width() - self.tried,
    {
        if self.tried >= self.range.width() {
            None
        } else if free(self.upcoming()) {
            Some(self.upcoming())
        } else {
            self.advanced().first_free(free)
        }
    }
}

proof fn lemma_first_free(scan: PortScanView, free: spec_fn(u16) -> bool)
    requires
        scan.range.ordered(),
    ensures
        match scan.first_free(free) {
            Some(port) => free(port) && scan.range.start <= port <= scan.range.end,
            None => forall|i: nat|
                scan.tried <= i < scan.range.width() ==> !free(
                    #[trigger] scan_port(scan.range, scan.base, i),
                ),
        },
    decreases scan.range.width() - scan.tried,
{
    if scan.tried < scan.range.width() {
        scan_stays_in_range(scan.range, scan.base, scan.tried);
        if !free(scan.upcoming()) {
            lemma_first_free(scan.advanced(), free);
        }
    }
}

/// Wherever a walk starts, it ends on a free port of the range if there is one,
/// and comes to nothing only if every port of the range is unavailable.
pub proof fn only_a_full_range_is_exhausted(
    range: PortRange,
    base: u32,
    free: spec_fn(u16) -> bool,
)
    requires
        range.ordered(),
    ensures
        match (PortScanView { range, base, tried: 0 }).first_free(free) {
            Some(port) => free(port) && range.start <= port <= range.end,
            None => forall|port: u16| range.start <= port <= range.end ==> !#[trigger] free(port),
        },
{
    let scan = PortScanView { range, base, tried: 0 };
    lemma_first_free(scan, free);
    if scan.first_free(free) is None {
        assert forall|port: u16| range.start <= port <= range.end implies !#[trigger] free(port) by {
            scan_offers_every_port_once(range, base, port);
            let i = choose|i: nat| i < range.width() && #[trigger] scan_port(range, base, i) == port;
            assert(!free(scan_port(range, base, i)));
        }
    }
}

/// Which IP address an association advertises.
#[derive(Debug, PartialEq, Eq)]
pub enum Advertise {
    /// The one that its relay socket is bound on.
    Bound,
    /// This one.
    Use(IpAddr),
    /// The one that this name resolves to.
    Lookup(String),
}

/// Decide which IP address an association advertises. The all-zero address is
/// never advertised.
pub fn advertise_plan(advertise: &Option<AdvertiseHost>) -> (plan: Advertise)
    ensures
        match *advertise {
            None => plan == Advertise::Bound,
            Some(AdvertiseHost::Ip(ip)) => plan == (if ip.spec_unspecified() {
                Advertise::Bound
            } else {
                Advertise::Use(ip)
            }),
            Some(AdvertiseHost::Domain(host)) => plan == Advertise::Lookup(host),
        },
{
    match advertise {
        None => Advertise::Bound,
        Some(AdvertiseHost::Ip(ip)) => if ip.is_unspecified() {
            Advertise::Bound
        } else {
            Advertise::Use(*ip)
        },
        Some(AdvertiseHost::Domain(host)) => Advertise::Lookup(host.clone()),
    }
}

/// Whether a relay socket on `bind_ip` can advertise `ip`.
pub open spec fn advertisable(ip: IpAddr, bind_ip: IpAddr) -> bool {
    !ip.spec_unspecified() && (ip is V4) == (bind_ip is V4)
}

/// The index of the first address that a relay socket on `bind_ip` can
/// advertise, or the length where there is none.
pub open spec fn first_advertisable(addresses: Seq<SocketAddr>, bind_ip: IpAddr) -> nat
    decreases addresses.len(),
{
    if addresses.len() == 0 || advertisable(addresses[0].spec_ip(), bind_ip) {
        0
    } else {
        1 + first_advertisable(addresses.drop_first(), bind_ip)
    }
}

proof fn lemma_first_advertisable(addresses: Seq<SocketAddr>, bind_ip: IpAddr, i: int)
    requires
        0 <= i <= addresses.len(),
        forall|j: int|
            0 <= j < i ==> !advertisable((#[trigger] addresses[j]).spec_ip(), bind_ip),
        i < addresses.len() ==> advertisable(addresses[i].spec_ip(), bind_ip),
    ensures
        first_advertisable(addresses, bind_ip) == i,
    decreases addresses.len(),
{
    if i > 0 {
        assert(!advertisable(addresses[0].spec_ip(), bind_ip));
        let rest = addresses.drop_first();
        assert forall|j: int| 0 <= j < i - 1 implies !advertisable(
            (#[trigger] rest[j]).spec_ip(),
            bind_ip,
        ) by {
            assert(rest[j] == addresses[j + 1]);
        }
        lemma_first_advertisable(rest, bind_ip, i - 1);
    }
}

/// Choose the address to advertise from what `host` resolved to. It must match
/// the relay socket's address family; advertising an address in another family
/// would be unusable.
pub fn advertise_answer(host: &str, addresses: &Vec<SocketAddr>, bind_ip: IpAddr) -> (ip: Result<
    IpAddr,
    String,
>)
    ensures
        ({
            let i = first_advertisable(addresses@, bind_ip);
            match ip {
                Ok(ip) => i < addresses@.len() && ip == addresses@[i as int].spec_ip(),
                Err(text) => i == addresses@.len() && text@ == host@
                    + ": no addresses matching the UDP socket family"@,
            }
        }),
{
    let mut i: usize = 0;
    while i < addresses.len()
        invariant
            i <= addresses.len(),
            forall|j: int|
                0 <= j < i ==> !advertisable((#[trigger] addresses@[j]).spec_ip(), bind_ip),
        decreases addresses.len() - i,
    {
        let ip: IpAddr = addresses[i].ip();
        if !ip.is_unspecified() && ip.is_ipv4() == bind_ip.is_ipv4() {
            proof {
                lemma_first_advertisable(addresses@, bind_ip, i as int);
            }
            return Ok(ip);
        }
        i += 1;
    }
    proof {
        lemma_first_advertisable(addresses@, bind_ip, addresses@.len() as int);
    }
    let mut text: String = host.to_owned();
    text.append(": no addresses matching the UDP socket family");
    Err(text)
}

/// The relay state of one association.
pub struct UdpRelay {
    egress: Egress,
    bind_ip: IpAddr,
    client_ip: IpAddr,
    client: Option<SocketAddr>,
    max_targets: usize,
    known: VecDeque<SocketAddr>,
    rate_pps: Option<u32>,
    window_start: u64,
    window_count: u32,
    last_dns_error: Option<u64>,
}

/// What a [`UdpRelay`] stands for.
#[verifier::ext_equal]
pub struct UdpRelayView {
    /// Addresses that must not be relayed to.
    pub egress: Egress,
    /// The address that the relay socket is bound on.
    pub bind_ip: IpAddr,
    /// The address that the control connection comes from.
    pub client_ip: IpAddr,
    /// The client's UDP source, locked on first contact.
    pub client: Option<SocketAddr>,
    /// How many targets are remembered.
    pub max_targets: nat,
    /// The targets that were sent to, the oldest first.
    pub known: Seq<SocketAddr>,
    /// How many datagrams may be sent in a second.
    pub rate_pps: Option<u32>,
    /// When the current second started.
    pub window_start: u64,
    /// How many datagrams were sent in the current second.
    pub window_count: u32,
    /// When a failed lookup was last reported.
    pub last_dns_error: Option<u64>,
}

/// What becomes of a datagram that arrived on the relay socket.
#[derive(Debug, PartialEq, Eq)]
pub enum UdpAction<'a> {
    /// Drop it.
    Drop,
    /// Send the payload to the target.
    Forward(SocketAddr, &'a [u8]),
    /// Resolve the name, then send the payload to what it resolves to.
    Resolve(String, u16, &'a [u8]),
    /// Send these bytes to the client, and count the datagram as download.
    Deliver(SocketAddr, Vec<u8>),
}

/// What a [`UdpAction`] stands for.
pub enum UdpActionView {
    Drop,
    Forward(SocketAddr, Seq<u8>),
    Resolve(Seq<char>, u16, Seq<u8>),
    Deliver(SocketAddr, Seq<u8>),
}

impl<'a> View for UdpAction<'a> {
    type V = UdpActionView;

    open spec fn view(&self) -> UdpActionView {
        match self {
            UdpAction::Drop => UdpActionView::Drop,
            UdpAction::Forward(target, data) => UdpActionView::Forward(*target, data@),
            UdpAction::Resolve(host, port, data) => UdpActionView::Resolve(host@, *port, data@),
            UdpAction::Deliver(dst, framed) => UdpActionView::Deliver(*dst, framed@),
        }
    }
}

impl View for UdpRelay {
    type V = UdpRelayView;

    closed spec fn view(&self) -> UdpRelayView {
        UdpRelayView {
            egress: self.egress,
            bind_ip: self.bind_ip,
            client_ip: self.client_ip,
            client: self.client,
            max_targets: self.max_targets as nat,
            known: self.known@,
            rate_pps: self.rate_pps,
            window_start: self.window_start,
            window_count: self.window_count,
            last_dns_error: self.last_dns_error,
        }
    }
}

/// Whether a second or more lies between `since` and `now`.
pub open spec fn second_passed(since: u64, now: u64) -> bool {
    now >= since + SECOND
}

impl UdpRelayView {
    /// Whether a datagram from `src` counts as the client's: its full address is
    /// locked on first contact, and before that the IP address decides.
    pub open spec fn is_client(self, src: SocketAddr) -> bool {
        match self.client {
            Some(client) => src == client,
            None => src.spec_ip() == self.client_ip,
        }
    }

    /// After the client was heard from `src`.
    pub open spec fn locked(self, src: SocketAddr) -> UdpRelayView {
        match self.client {
            Some(_) => self,
            None => UdpRelayView { client: Some(src), ..self },
        }
    }

    /// After a new second has started, where one has.
    pub open spec fn rolled(self, now: u64) -> UdpRelayView {
        if self.rate_pps is Some && second_passed(self.window_start, now) {
            UdpRelayView { window_start: now, window_count: 0, ..self }
        } else {
            self
        }
    }

    /// Whether the current second has room for another datagram.
    pub open spec fn has_room(self) -> bool {
        self.rate_pps matches Some(limit) ==> self.window_count < limit
    }

    /// A datagram with `bytes` arrived from `src`.
    pub open spec fn received(self, src: SocketAddr, bytes: Seq<u8>, now: u64) -> (
        UdpRelayView,
        UdpActionView,
    ) {
        if self.is_client(src) {
            let locked = self.locked(src);
            match datagram(bytes) {
                // Malformed, or a fragment: drop it.
                Err(_) => (locked, UdpActionView::Drop),
                Ok(parsed) => if parsed.frag != 0 {
                    (locked, UdpActionView::Drop)
                } else {
                    let rolled = locked.rolled(now);
                    if !rolled.has_room() {
                        (rolled, UdpActionView::Drop)
                    } else {
                        match parsed.address {
                            AddressView::Domain(host, port) => (
                                rolled,
                                UdpActionView::Resolve(host, port, parsed.data),
                            ),
                            address => {
                                let target = literal(address)->Some_0;
                                if self.egress.blocks(target.spec_ip()) {
                                    (rolled, UdpActionView::Drop)
                                } else {
                                    (rolled, UdpActionView::Forward(target, parsed.data))
                                }
                            },
                        }
                    }
                },
            }
        } else if self.known.contains(src) && self.client is Some {
            let framed = encapsulated(address_of(src), bytes);
            (self, UdpActionView::Deliver(self.client->Some_0, framed))
        } else {
            // Neither the client nor a known target.
            (self, UdpActionView::Drop)
        }
    }

    /// Whether a datagram may be sent to `address`, one of those that a name
    /// resolved to.
    pub open spec fn usable(self, address: SocketAddr) -> bool {
        (address.spec_ip() is V4) == (self.bind_ip is V4) && !self.egress.blocks(address.spec_ip())
    }

    /// The first address that a datagram may be sent to.
    pub open spec fn first_usable(self, addresses: Seq<SocketAddr>) -> Option<SocketAddr>
        decreases addresses.len(),
    {
        if addresses.len() == 0 {
            None
        } else if self.usable(addresses[0]) {
            Some(addresses[0])
        } else {
            self.first_usable(addresses.drop_first())
        }
    }

    /// Whether a failed lookup is reported: the last report is a second ago.
    pub open spec fn report_due(self, now: u64) -> bool {
        match self.last_dns_error {
            Some(at) => second_passed(at, now),
            None => true,
        }
    }

    /// After a failed lookup.
    pub open spec fn lookup_failed(self, now: u64) -> UdpRelayView {
        if self.report_due(now) {
            UdpRelayView { last_dns_error: Some(now), ..self }
        } else {
            self
        }
    }

    /// After `target` was added to the known ones, the oldest giving way where
    /// there are too many.
    pub open spec fn tracking(self, target: SocketAddr) -> UdpRelayView {
        if self.known.contains(target) {
            self
        } else {
            let known = self.known.push(target);
            UdpRelayView {
                known: if known.len() > self.max_targets {
                    known.drop_first()
                } else {
                    known
                },
                ..self
            }
        }
    }

    /// After a datagram was sent to `target`.
    pub open spec fn sent(self, target: SocketAddr) -> UdpRelayView {
        let counted = if self.rate_pps is Some {
            UdpRelayView { window_count: (self.window_count + 1) as u32, ..self }
        } else {
            self
        };
        counted.tracking(target)
    }

    /// Whether the known targets are distinct, allowed and not too many, and no
    /// more datagrams were sent in the current second than may be.
    pub open spec fn wf(self) -> bool {
        &&& 1 <= self.max_targets
        &&& self.known.len() <= self.max_targets
        &&& self.known.no_duplicates()
        &&& forall|i: int|
            0 <= i < self.known.len() ==> !self.egress.blocks((#[trigger] self.known[i]).spec_ip())
        &&& self.rate_pps matches Some(limit) ==> self.window_count <= limit
    }
}

impl UdpRelay {
    /// Start to relay for a client whose control connection comes from
    /// `client_peer`, on a socket bound on `bind_ip`.
    pub fn new(
        egress: Egress,
        bind_ip: IpAddr,
        client_peer: SocketAddr,
        max_targets: usize,
        rate_pps: Option<u32>,
        now: u64,
    ) -> (relay: UdpRelay)
        ensures
            relay@ == (UdpRelayView {
                egress,
                bind_ip,
                client_ip: client_peer.spec_ip().spec_canonical(),
                client: None,
                max_targets: if max_targets == 0 {
                    1
                } else {
                    max_targets as nat
                },
                known: Seq::empty(),
                rate_pps,
                window_start: now,
                window_count: 0,
                last_dns_error: None,
            }),
            relay@.wf(),
    {
        let relay = UdpRelay {
            egress,
            bind_ip,
            client_ip: client_peer.ip().to_canonical(),
            client: None,
            max_targets: if max_targets == 0 {
                1
            } else {
                max_targets
            },
            known: VecDeque::new(),
            rate_pps,
            window_start: now,
            window_count: 0,
            last_dns_error: None,
        };
        assert(relay@.known =~= Seq::<SocketAddr>::empty());
        relay
    }

    /// Whether `address` is a known target.
    fn knows(&self, address: SocketAddr) -> (known: bool)
        ensures
            known == self@.known.contains(address),
    {
        let mut i: usize = 0;
        while i < self.known.len()
            invariant
                i <= self.known@.len(),
                forall|j: int| 0 <= j < i ==> self.known@[j] != address,
            decreases self.known@.len() - i,
        {
            if self.known[i] == address {
                assert(self.known@[i as int] == address);
                return true;
            }
            i += 1;
        }
        false
    }

    /// Start a new second where one has passed, and tell whether the current one
    /// has room for another datagram.
    fn roll(&mut self, now: u64) -> (room: bool)
        ensures
            final(self)@ == old(self)@.rolled(now),
            room == final(self)@.has_room(),
    {
        match self.rate_pps {
            None => true,
            Some(limit) => {
                if now >= self.window_start && now - self.window_start >= SECOND {
                    self.window_start = now;
                    self.window_count = 0;
                }
                assert(self@ =~= old(self)@.rolled(now));
                self.window_count < limit
            },
        }
    }

    /// Decide on a datagram with `bytes` that arrived from `src`.
    pub fn receive<'a>(&mut self, src: SocketAddr, bytes: &'a [u8], now: u64) -> (action: UdpAction<
        'a,
    >)
        ensures
            (final(self)@, action@) == old(self)@.received(src, bytes@, now),
            old(self)@.wf() ==> final(self)@.wf(),
    {
        let is_client: bool = match self.client {
            Some(client) => src == client,
            None => src.ip() == self.client_ip,
        };
        if is_client {
            // Client -> target datagram. Lock the client's UDP source.
            if self.client.is_none() {
                self.client = Some(src);
            }
            assert(self@ =~= old(self)@.locked(src));
            let parsed = match decap_ref(bytes) {
                Ok(parsed) => parsed,
                // Malformed datagram: drop it.
                Err(_) => {
                    return UdpAction::Drop;
                },
            };
            // Fragmentation is not supported: drop FRAG != 0.
            if parsed.frag != 0 {
                return UdpAction::Drop;
            }
            // Optional outbound rate limit. It counts successful sends, so
            // dropped datagrams do not consume the budget.
            if !self.roll(now) {
                return UdpAction::Drop;
            }
            let target: SocketAddr = match parsed.address {
                Address::V4(ip, port) => SocketAddr::new(IpAddr::V4(ip), port),
                Address::V6(ip, port) => SocketAddr::new(IpAddr::V6(ip), port),
                Address::Domain(host, port) => {
                    return UdpAction::Resolve(host, port, parsed.data);
                },
            };
            // Egress policy: never relay to internal/metadata addresses.
            if self.egress.is_blocked(target.ip()) {
                UdpAction::Drop
            } else {
                UdpAction::Forward(target, parsed.data)
            }
        } else if self.knows(src) {
            // Target -> client reply. Re-encapsulate and forward to the
            // client's learned UDP source (if any).
            match self.client {
                Some(dst) => {
                    let mut framed: Vec<u8> = Vec::new();
                    encap(&socket_addr_to_address(src), bytes, &mut framed);
                    assert(framed@ =~= encapsulated(address_of(src), bytes@));
                    UdpAction::Deliver(dst, framed)
                },
                None => UdpAction::Drop,
            }
        } else {
            // Otherwise: source is neither the client nor a known target
            // (injection / spoofing). Drop it. This is source filtering.
            UdpAction::Drop
        }
    }

    /// Choose the target from what the name of a datagram resolved to.
    pub fn resolved(&self, addresses: &Vec<SocketAddr>) -> (target: Option<SocketAddr>)
        ensures
            target == self@.first_usable(addresses@),
    {
        let mut i: usize = 0;
        assert(addresses@.skip(0) =~= addresses@);
        while i < addresses.len()
            invariant
                i <= addresses.len(),
                self@.first_usable(addresses@) == self@.first_usable(addresses@.skip(i as int)),
            decreases addresses.len() - i,
        {
            let address: SocketAddr = addresses[i];
            assert(addresses@.skip(i as int)[0] == address);
            assert(addresses@.skip(i as int).drop_first() =~= addresses@.skip(i + 1));
            if address.ip().is_ipv4() == self.bind_ip.is_ipv4() && !self.egress.is_blocked(
                address.ip(),
            ) {
                return Some(address);
            }
            i += 1;
        }
        None
    }

    /// The name of a datagram was not resolved. Returns the event to send: error
    /// events are limited to one a second, so that a flood of failing names is
    /// no flood of events.
    pub fn lookup_failed(&mut self, host: &str, port: u16, error: &str, now: u64) -> (event: Option<
        Event,
    >)
        ensures
            event is Some <==> old(self)@.report_due(now),
            event matches Some(event) ==> event@ == (EventView::Error {
                code: Socks5Error::HostUnreachable.code(),
                msg: "could not resolve UDP target "@ + host@ + ":"@ + decimal(port as nat) + ": "@
                    + error@,
            }),
            final(self)@ == old(self)@.lookup_failed(now),
            old(self)@.wf() ==> final(self)@.wf(),
    {
        let due: bool = match self.last_dns_error {
            Some(at) => now >= at && now - at >= SECOND,
            None => true,
        };
        if !due {
            return None;
        }
        self.last_dns_error = Some(now);
        let mut msg: String = "could not resolve UDP target ".to_owned();
        msg.append(host);
        msg.append(":");
        push_decimal(&mut msg, port as u128);
        msg.append(": ");
        msg.append(error);
        assert(self@ =~= (UdpRelayView { last_dns_error: Some(now), ..old(self)@ }));
        Some(Event::Error { code: Socks5Error::HostUnreachable.reply_code(), msg })
    }

    /// A datagram that the client asked for was sent to `target`.
    pub fn sent(&mut self, target: SocketAddr)
        requires
            old(self)@.has_room(),
        ensures
            final(self)@ == old(self)@.sent(target),
            old(self)@.wf() && !old(self)@.egress.blocks(target.spec_ip()) ==> final(self)@.wf(),
    {
        // Count only successful sends against the rate budget.
        if self.rate_pps.is_some() {
            self.window_count += 1;
        }
        let ghost counted = self@;
        // Track the target (bounded; evict the oldest over cap).
        if !self.knows(target) {
            self.known.push_back(target);
            if self.known.len() > self.max_targets {
                let _ = self.known.pop_front();
            }
        }
        proof {
            let known = counted.known.push(target);
            assert(known.drop_first() =~= known.subrange(1, known.len() as int));
            assert(self@ =~= counted.tracking(target));
            if old(self)@.wf() && !old(self)@.egress.blocks(target.spec_ip()) {
                lemma_tracking_keeps_wf(counted, target);
            }
        }
    }
}

proof fn lemma_tracking_keeps_wf(relay: UdpRelayView, target: SocketAddr)
    requires
        relay.wf(),
        !relay.egress.blocks(target.spec_ip()),
    ensures
        relay.tracking(target).wf(),
        relay.tracking(target).known.contains(target),
{
    let after = relay.tracking(target);
    if !relay.known.contains(target) {
        let known = relay.known.push(target);
        assert(known.last() == target);
        assert(after.known.last() == target);
        assert(known.no_duplicates());
    }
}

/// Once the client's UDP source is locked it stays so, and no other source gets
/// anything sent.
pub proof fn the_client_is_locked(relay: UdpRelayView, src: SocketAddr, bytes: Seq<u8>, now: u64)
    ensures
        ({
            let (after, action) = relay.received(src, bytes, now);
            &&& relay.client matches Some(client) ==> after.client == Some(client)
            &&& action is Forward || action is Resolve ==> after.client == Some(src)
            &&& relay.client is None && after.client is Some ==> after.client == Some(src)
                && src.spec_ip() == relay.client_ip
        }),
{
}

/// The client hears of nothing but replies from known targets, and decapsulating
/// such a reply gives the target's address and its payload.
pub proof fn only_known_targets_reach_the_client(
    relay: UdpRelayView,
    src: SocketAddr,
    bytes: Seq<u8>,
    now: u64,
)
    ensures
        relay.received(src, bytes, now).1 matches UdpActionView::Deliver(dst, framed) ==> {
            &&& relay.known.contains(src)
            &&& relay.client == Some(dst)
            &&& datagram(framed) == Ok::<DatagramView, UdpError>(
                DatagramView { frag: 0, address: address_of(src), data: bytes },
            )
        },
{
    decap_inverts_encap(address_of(src), bytes);
}

/// What can happen to a relay.
pub enum RelayEvent {
    /// A datagram with these bytes arrived from this source, at this instant.
    Received(SocketAddr, Seq<u8>, u64),
    /// The name of a datagram was not resolved, at this instant.
    LookupFailed(u64),
    /// A datagram that the client asked for was sent to this target.
    Sent(SocketAddr),
}

impl UdpRelayView {
    /// After `event`.
    pub open spec fn after(self, event: RelayEvent) -> UdpRelayView {
        match event {
            RelayEvent::Received(src, bytes, now) => self.received(src, bytes, now).0,
            RelayEvent::LookupFailed(now) => self.lookup_failed(now),
            RelayEvent::Sent(target) => self.sent(target),
        }
    }

    /// Whether `event` starts a new second of the rate limit: it is a datagram of
    /// the client that is to be relayed, a second or more after the last start.
    pub open spec fn opens_window(self, event: RelayEvent) -> bool {
        event matches RelayEvent::Received(src, bytes, now) && self.is_client(src) && (datagram(
            bytes,
        ) matches Ok(parsed) && parsed.frag == 0) && self.rate_pps is Some && second_passed(
            self.window_start,
            now,
        )
    }
}

/// Where a relay stands after `events`.
pub open spec fn relay_run(start: UdpRelayView, events: Seq<RelayEvent>) -> UdpRelayView
    decreases events.len(),
{
    if events.len() == 0 {
        start
    } else {
        relay_run(start, events.drop_last()).after(events.last())
    }
}

/// Whether a datagram was sent to `target` in `events`.
pub open spec fn was_sent_to(events: Seq<RelayEvent>, target: SocketAddr) -> bool {
    exists|i: int| 0 <= i < events.len() && #[trigger] events[i] == RelayEvent::Sent(target)
}

/// Whether datagrams are sent in `events` only where room is left for them.
pub open spec fn sends_had_room(start: UdpRelayView, events: Seq<RelayEvent>) -> bool
    decreases events.len(),
{
    events.len() > 0 ==> {
        &&& sends_had_room(start, events.drop_last())
        &&& events.last() is Sent ==> relay_run(start, events.drop_last()).has_room()
    }
}

/// How many datagrams were sent since the current second started, those counted
/// at the start included where none has started since.
pub open spec fn sends_in_window(start: UdpRelayView, events: Seq<RelayEvent>) -> nat
    decreases events.len(),
{
    if events.len() == 0 {
        start.window_count as nat
    } else if events.last() is Sent {
        sends_in_window(start, events.drop_last()) + 1
    } else if relay_run(start, events.drop_last()).opens_window(events.last()) {
        0
    } else {
        sends_in_window(start, events.drop_last())
    }
}

proof fn lemma_known_was_sent_to(start: UdpRelayView, events: Seq<RelayEvent>, target: SocketAddr)
    requires
        start.known.len() == 0,
        relay_run(start, events).known.contains(target),
    ensures
        was_sent_to(events, target),
    decreases events.len(),
{
    if events.len() > 0 {
        let front = events.drop_last();
        let before = relay_run(start, front);
        if before.known.contains(target) {
            lemma_known_was_sent_to(start, front, target);
            let i = choose|i: int|
                0 <= i < front.len() && #[trigger] front[i] == RelayEvent::Sent(target);
            assert(events[i] == RelayEvent::Sent(target));
        } else {
            let after = relay_run(start, events);
            let k = after.known.index_of(target);
            assert(after.known[k] == target);
            if let RelayEvent::Sent(sent) = events.last() {
                let known = before.known.push(sent);
                if sent != target {
                    let j = if known.len() > before.max_targets {
                        k + 1
                    } else {
                        k
                    };
                    assert(known[j] == target);
                    assert(before.known[j] == target);
                }
                assert(events[events.len() - 1] == RelayEvent::Sent(target));
            }
        }
    }
}

proof fn lemma_client_stays(start: UdpRelayView, events: Seq<RelayEvent>, i: int, client: SocketAddr)
    requires
        0 <= i <= events.len(),
        relay_run(start, events.take(i)).client == Some(client),
    ensures
        relay_run(start, events).client == Some(client),
    decreases events.len(),
{
    if i == events.len() {
        assert(events.take(i) =~= events);
    } else {
        let front = events.drop_last();
        assert(front.take(i) =~= events.take(i));
        lemma_client_stays(start, front, i, client);
    }
}

proof fn lemma_window(start: UdpRelayView, events: Seq<RelayEvent>, limit: u32)
    requires
        start.rate_pps == Some(limit),
        start.window_count <= limit,
        sends_had_room(start, events),
    ensures
        relay_run(start, events).rate_pps == Some(limit),
        relay_run(start, events).window_count == sends_in_window(start, events),
        relay_run(start, events).window_count <= limit,
    decreases events.len(),
{
    if events.len() > 0 {
        lemma_window(start, events.drop_last(), limit);
    }
}

/// Whatever happens to a relay that starts with no known target, those that it
/// knows were sent to, so that the client hears from no other source; its UDP
/// source stays what it was once set; and no more datagrams are sent within one
/// window of a second than the limit allows.
pub proof fn only_contacted_targets_are_known(start: UdpRelayView, events: Seq<RelayEvent>)
    requires
        start.known.len() == 0,
    ensures
        forall|target: SocketAddr| #[trigger]
            relay_run(start, events).known.contains(target) ==> was_sent_to(events, target),
        forall|src: SocketAddr, bytes: Seq<u8>, now: u64|
            (#[trigger] relay_run(start, events).received(src, bytes, now)).1 is Deliver
                ==> was_sent_to(events, src),
        forall|i: int|
            0 <= i <= events.len() && (#[trigger] relay_run(start, events.take(i))).client is Some
                ==> relay_run(start, events).client == relay_run(start, events.take(i)).client,
        start.rate_pps matches Some(limit) ==> (start.window_count <= limit && sends_had_room(
            start,
            events,
        ) ==> {
            &&& relay_run(start, events).window_count == sends_in_window(start, events)
            &&& sends_in_window(start, events) <= limit
        }),
{
    assert forall|target: SocketAddr| #[trigger]
        relay_run(start, events).known.contains(target) implies was_sent_to(events, target) by {
        lemma_known_was_sent_to(start, events, target);
    }
    assert forall|i: int|
        0 <= i <= events.len() && (#[trigger] relay_run(start, events.take(i))).client is Some implies
        relay_run(start, events).client == relay_run(start, events.take(i)).client by {
        lemma_client_stays(start, events, i, relay_run(start, events.take(i)).client->Some_0);
    }
    if let Some(limit) = start.rate_pps {
        if start.window_count <= limit && sends_had_room(start, events) {
            lemma_window(start, events, limit);
        }
    }
}

/// Nothing is sent to an address that the egress policy refuses, be it named by
/// the client or resolved.
pub proof fn nothing_leaves_for_blocked_targets(
    relay: UdpRelayView,
    src: SocketAddr,
    bytes: Seq<u8>,
    now: u64,
    addresses: Seq<SocketAddr>,
)
    ensures
        relay.received(src, bytes, now).1 matches UdpActionView::Forward(target, _)
            ==> !relay.egress.blocks(target.spec_ip()),
        relay.first_usable(addresses) matches Some(target) ==> {
            &&& addresses.contains(target)
            &&& !relay.egress.blocks(target.spec_ip())
            &&& (target.spec_ip() is V4) == (relay.bind_ip is V4)
        },
    decreases addresses.len(),
{
    if addresses.len() > 0 && !relay.usable(addresses[0]) {
        nothing_leaves_for_blocked_targets(relay, src, bytes, now, addresses.drop_first());
        if let Some(target) = relay.first_usable(addresses) {
            let i = addresses.drop_first().index_of(target);
            assert(addresses[i + 1] == target);
        }
    }
}

/// A fragment is dropped, whatever it carries.
pub proof fn fragments_are_dropped(relay: UdpRelayView, src: SocketAddr, bytes: Seq<u8>, now: u64)
    requires
        relay.is_client(src),
        datagram(bytes) matches Ok(parsed) && parsed.frag != 0,
    ensures
        relay.received(src, bytes, now).1 == UdpActionView::Drop,
{
}

/// A target that was sent to is known from then on, at the cost of the oldest
/// where too many are: its next datagram reaches the client.
pub proof fn replies_are_delivered(
    relay: UdpRelayView,
    client: SocketAddr,
    target: SocketAddr,
    bytes: Seq<u8>,
    now: u64,
)
    requires
        relay.wf(),
        relay.has_room(),
        relay.client == Some(client),
        target != client,
        !relay.egress.blocks(target.spec_ip()),
    ensures
        relay.sent(target).received(target, bytes, now).1 == UdpActionView::Deliver(
            client,
            encapsulated(address_of(target), bytes),
        ),
{
    let counted = if relay.rate_pps is Some {
        UdpRelayView { window_count: (relay.window_count + 1) as u32, ..relay }
    } else {
        relay
    };
    lemma_tracking_keeps_wf(counted, target);
}

/// In one window of a second no more datagrams are sent than the limit allows: a
/// datagram is let through only where room is left, each one sent takes it up,
/// and a new window starts only after a second.
pub proof fn the_rate_is_kept(
    relay: UdpRelayView,
    src: SocketAddr,
    bytes: Seq<u8>,
    now: u64,
    target: SocketAddr,
    limit: u32,
)
    requires
        relay.wf(),
        relay.rate_pps == Some(limit),
    ensures
        ({
            let (after, action) = relay.received(src, bytes, now);
            &&& action is Forward || action is Resolve ==> after.has_room()
            &&& after.window_count <= limit
            &&& after.window_start != relay.window_start ==> second_passed(relay.window_start, now)
            &&& after.window_start == relay.window_start ==> after.window_count
                == relay.window_count
        }),
        relay.has_room() ==> relay.sent(target).window_count == relay.window_count + 1
            && relay.sent(target).window_count <= limit,
{
}

/// A whole datagram of the client is relayed where the rate limit has room: to the
/// IP address and port that it names, unless the egress policy refuses them, or to
/// what its name resolves to; with its payload, whatever targets are known. Where
/// there is no room it is dropped. Apart from the client's lock and the window of
/// the limit nothing of the relay changes.
pub proof fn client_datagrams_are_relayed(
    relay: UdpRelayView,
    src: SocketAddr,
    rsv: u8,
    rsv2: u8,
    address: AddressView,
    data: Seq<u8>,
    now: u64,
)
    requires
        match relay.client {
            Some(client) => src == client,
            None => src.spec_ip() == relay.client_ip,
        },
        address.fits(),
    ensures
        ({
            let bytes = seq![rsv, rsv2, 0u8] + address.encoded() + data;
            let (after, action) = relay.received(src, bytes, now);
            let fresh = relay.rate_pps is Some && now >= relay.window_start + 1_000_000_000;
            let count = if fresh {
                0u32
            } else {
                relay.window_count
            };
            let room = match relay.rate_pps {
                Some(limit) => count < limit,
                None => true,
            };
            &&& after == (UdpRelayView {
                client: Some(src),
                window_start: if fresh {
                    now
                } else {
                    relay.window_start
                },
                window_count: count,
                ..relay
            })
            &&& !room ==> action == UdpActionView::Drop
            &&& room ==> match address {
                AddressView::V4(ip, port) => action == (if relay.egress.blocks(IpAddr::V4(ip)) {
                    UdpActionView::Drop
                } else {
                    UdpActionView::Forward(SocketAddr::V4(SocketAddrV4 { ip, port }), data)
                }),
                AddressView::V6(ip, port) => action == (if relay.egress.blocks(IpAddr::V6(ip)) {
                    UdpActionView::Drop
                } else {
                    UdpActionView::Forward(
                        SocketAddr::V6(SocketAddrV6 { ip, port, flowinfo: 0, scope_id: 0 }),
                        data,
                    )
                }),
                AddressView::Domain(host, port) => action == UdpActionView::Resolve(
                    host,
                    port,
                    data,
                ),
            }
        }),
{
    datagrams_are_spelled(rsv, rsv2, 0, address, data);
}

/// A datagram of the client that is malformed or a fragment is dropped; it locks
/// the client's source and changes nothing else.
pub proof fn bad_datagrams_only_lock_the_client(
    relay: UdpRelayView,
    src: SocketAddr,
    bytes: Seq<u8>,
    now: u64,
)
    requires
        match relay.client {
            Some(client) => src == client,
            None => src.spec_ip() == relay.client_ip,
        },
        match datagram(bytes) {
            Ok(parsed) => parsed.frag != 0,
            Err(_) => true,
        },
    ensures
        relay.received(src, bytes, now) == (
            UdpRelayView { client: Some(src), ..relay },
            UdpActionView::Drop,
        ),
{
}

/// A datagram that is not the client's is passed on to the client, behind a header
/// that spells where it came from, if and only if it comes from a known target and
/// the client's source is locked; it changes nothing.
pub proof fn other_datagrams_are_passed_on_or_dropped(
    relay: UdpRelayView,
    src: SocketAddr,
    bytes: Seq<u8>,
    now: u64,
)
    requires
        match relay.client {
            Some(client) => src != client,
            None => src.spec_ip() != relay.client_ip,
        },
    ensures
        relay.received(src, bytes, now).0 == relay,
        relay.received(src, bytes, now).1 == (match relay.client {
            Some(client) => if relay.known.contains(src) {
                UdpActionView::Deliver(
                    client,
                    seq![0u8, 0, 0] + address_of(src).encoded() + bytes,
                )
            } else {
                UdpActionView::Drop
            },
            None => UdpActionView::Drop,
        }),
        spells_address(address_of(src).encoded(), address_of(src)),
{
    datagrams_are_spelled(0, 0, 0, address_of(src), bytes);
}

/// A datagram for a name goes to the first address of the answer that is of the
/// relay socket's family and that the egress policy allows; to none only where no
/// address is.
pub proof fn names_go_to_the_first_usable_address(
    relay: UdpRelayView,
    addresses: Seq<SocketAddr>,
    i: int,
)
    requires
        0 <= i <= addresses.len(),
        i < addresses.len() ==> (addresses[i] is V4) == (relay.bind_ip is V4)
            && !relay.egress.blocks(addresses[i].spec_ip()),
        forall|j: int|
            0 <= j < i ==> (#[trigger] addresses[j] is V4) != (relay.bind_ip is V4)
                || relay.egress.blocks(addresses[j].spec_ip()),
    ensures
        relay.first_usable(addresses) == (if i < addresses.len() {
            Some(addresses[i])
        } else {
            None
        }),
    decreases addresses.len(),
{
    if i > 0 {
        assert((addresses[0] is V4) != (relay.bind_ip is V4) || relay.egress.blocks(
            addresses[0].spec_ip(),
        ));
        let rest = addresses.drop_first();
        assert forall|j: int| 0 <= j < i - 1 implies (#[trigger] rest[j] is V4) != (
        relay.bind_ip is V4) || relay.egress.blocks(rest[j].spec_ip()) by {
            assert(rest[j] == addresses[j + 1]);
        }
        names_go_to_the_first_usable_address(relay, rest, i - 1);
    }
}

/// A send makes its target the newest known one, unless it is known already; the
/// oldest gives way only where too many would be known. Where a limit is set the
/// send is counted. Nothing else changes.
pub proof fn sends_are_remembered(relay: UdpRelayView, target: SocketAddr)
    requires
        relay.wf(),
        relay.has_room(),
    ensures
        ({
            let after = relay.sent(target);
            &&& after.known.contains(target)
            &&& relay.known.contains(target) ==> after.known == relay.known
            &&& !relay.known.contains(target) ==> {
                &&& after.known.last() == target
                &&& relay.known.len() < relay.max_targets ==> after.known.drop_last() == relay.known
                &&& relay.known.len() == relay.max_targets ==> after.known.drop_last()
                    == relay.known.skip(1)
            }
            &&& after.window_count == relay.window_count + if relay.rate_pps is Some {
                1int
            } else {
                0int
            }
            &&& after == (UdpRelayView {
                known: after.known,
                window_count: after.window_count,
                ..relay
            })
        }),
{
    let after = relay.sent(target);
    if !relay.known.contains(target) {
        let longer = relay.known.push(target);
        assert(longer.last() == target);
        assert(after.known.last() == target);
        assert(after.known.contains(target)) by {
            assert(after.known[after.known.len() - 1] == target);
        }
        if relay.known.len() < relay.max_targets {
            assert(after.known.drop_last() =~= relay.known);
        } else {
            assert(after.known.drop_last() =~= relay.known.skip(1));
        }
    }
}

/// A failed lookup is reported if and only if no other was within the second before
/// it, and only a report is remembered.
pub proof fn failed_lookups_are_reported_once_a_second(relay: UdpRelayView, now: u64)
    ensures
        relay.report_due(now) <==> match relay.last_dns_error {
            Some(at) => now >= at + 1_000_000_000,
            None => true,
        },
        relay.lookup_failed(now) == (UdpRelayView {
            last_dns_error: if relay.report_due(now) {
                Some(now)
            } else {
                relay.last_dns_error
            },
            ..relay
        }),
{
}

/// A walk starts as far into the range as its base says, counted around the range
/// as often as need be, and goes up port by port; behind the last port comes the
/// first.
pub proof fn scans_walk_upward(range: PortRange, base: u32, i: nat)
    requires
        range.ordered(),
        i + 1 < range.width(),
    ensures
        base < range.width() ==> scan_port(range, base, 0) == range.start + base,
        base + range.width() <= u32::MAX ==> scan_port(
            range,
            (base + range.width()) as u32,
            i,
        ) == scan_port(range, base, i),
        scan_port(range, base, i + 1) == (if scan_port(range, base, i) == range.end {
            range.start as int
        } else {
            scan_port(range, base, i) + 1
        }),
{
    lemma_scan_port(range, base, 0);
    lemma_scan_port(range, base, i);
    lemma_scan_port(range, base, i + 1);
    if base < range.width() {
        vstd::arithmetic::div_mod::lemma_small_mod(base as nat, range.width());
    }
    if base + range.width() <= u32::MAX {
        vstd::arithmetic::div_mod::lemma_mod_add_multiples_vanish(
            base as int,
            range.width() as int,
        );
    }
}

/// Another port is tried only where one is taken or privileged.
pub proof fn binds_are_retried_for_cause(kind: IoErrorKind)
    ensures
        retried(kind) <==> kind is AddrInUse || kind is PermissionDenied,
{
}

} // verus!
