//! CONNECT command: how a target is reached, and how a failure to reach it is
//! reported.

use vstd::prelude::*;

use crate::config::Egress;
use crate::error::{IoErrorKind, IoFailure, IoFailureView, Socks5Error};
use crate::net::{IpAddr, Ipv4Addr, Ipv6Addr, SocketAddr, SocketAddrV4, SocketAddrV6};
use crate::protocol::address::{Address, AddressView};
use crate::text::{decimal, ipv4_text, ipv6_text, push_decimal, push_ipv4, push_ipv6, push_socket, socket_text};

verus! {

/// Why no connection to a target was established.
#[derive(Debug, PartialEq, Eq)]
pub enum EstablishError {
    /// The name was not resolved.
    Dns(String),
    /// The egress policy refuses every address of the target.
    Blocked,
    /// No attempt got through.
    Dial(IoFailure),
}

/// What an [`EstablishError`] stands for.
pub enum EstablishErrorView {
    Dns(Seq<char>),
    Blocked,
    Dial(IoFailureView),
}

/// How to reach a target.
#[derive(Debug, PartialEq, Eq)]
pub enum Route {
    /// Dial this address, within the whole budget.
    Dial(SocketAddr),
    /// The egress policy refuses the address.
    Blocked,
    /// Resolve the name in both families and dial what comes back.
    Resolve,
}

impl View for EstablishError {
    type V = EstablishErrorView;

    open spec fn view(&self) -> EstablishErrorView {
        match self {
            EstablishError::Dns(detail) => EstablishErrorView::Dns(detail@),
            EstablishError::Blocked => EstablishErrorView::Blocked,
            EstablishError::Dial(error) => EstablishErrorView::Dial(error@),
        }
    }
}

/// The socket address of an address that is not a name.
pub open spec fn literal(target: AddressView) -> Option<SocketAddr> {
    match target {
        AddressView::V4(ip, port) => Some(SocketAddr::spec_new(IpAddr::V4(ip), port)),
        AddressView::V6(ip, port) => Some(SocketAddr::spec_new(IpAddr::V6(ip), port)),
        AddressView::Domain(_, _) => None,
    }
}

/// Decide how to reach `target`.
pub fn route(target: &Address, egress: &Egress) -> (route: Route)
    ensures
        match literal(target@) {
            Some(address) => route == (if egress.blocks(address.spec_ip()) {
                Route::Blocked
            } else {
                Route::Dial(address)
            }),
            None => route == Route::Resolve,
        },
{
    let address: SocketAddr = match target {
        Address::V4(ip, port) => SocketAddr::new(IpAddr::V4(*ip), *port),
        Address::V6(ip, port) => SocketAddr::new(IpAddr::V6(*ip), *port),
        Address::Domain(_, _) => {
            return Route::Resolve;
        },
    };
    if egress.is_blocked(address.ip()) {
        Route::Blocked
    } else {
        Route::Dial(address)
    }
}

/// The failure of a dial that took longer than its budget.
pub fn dial_timeout(address: SocketAddr) -> (error: IoFailure)
    ensures
        error.kind == IoErrorKind::TimedOut,
        error.message@ == "connect to "@ + socket_text(address) + " timed out"@,
{
    let mut message: String = "connect to ".to_owned();
    push_socket(&mut message, address);
    message.append(" timed out");
    IoFailure { kind: IoErrorKind::TimedOut, message }
}

/// A target address as `host:port`.
pub open spec fn target_text(target: AddressView) -> Seq<char> {
    match target {
        AddressView::V4(ip, port) => ipv4_text(ip) + ":"@ + decimal(port as nat),
        AddressView::V6(ip, port) => "["@ + ipv6_text(ip) + "]:"@ + decimal(port as nat),
        AddressView::Domain(host, port) => host + ":"@ + decimal(port as nat),
    }
}

/// Render a target address as a `host:port` string for logging/metrics.
pub fn address_to_string(target: &Address) -> (text: String)
    ensures
        text@ == target_text(target@),
{
    let mut text: String = String::new();
    match target {
        Address::V4(ip, port) => {
            push_ipv4(&mut text, *ip);
            text.append(":");
            push_decimal(&mut text, *port as u128);
        },
        Address::V6(ip, port) => {
            text.append("[");
            push_ipv6(&mut text, *ip);
            text.append("]:");
            push_decimal(&mut text, *port as u128);
        },
        Address::Domain(host, port) => {
            text.append(host.as_str());
            text.append(":");
            push_decimal(&mut text, *port as u128);
        },
    }
    assert(text@ =~= target_text(target@));
    text
}

/// A socket address as a SOCKS5 address.
pub open spec fn address_of(addr: SocketAddr) -> AddressView {
    match addr {
        SocketAddr::V4(v4) => AddressView::V4(v4.ip, v4.port),
        SocketAddr::V6(v6) => AddressView::V6(v6.ip, v6.port),
    }
}

/// Convert a [`SocketAddr`] into a SOCKS5 [`Address`] for the BND reply.
pub fn socket_addr_to_address(addr: SocketAddr) -> (address: Address)
    ensures
        address@ == address_of(addr),
{
    match addr {
        SocketAddr::V4(v4) => Address::V4(v4.ip, v4.port),
        SocketAddr::V6(v6) => Address::V6(v6.ip, v6.port),
    }
}

/// The BND address of a CONNECT reply: the local address of the upstream
/// connection, or the zero IPv4 address where it is not known.
pub fn bind_address(local: Option<SocketAddr>) -> (address: Address)
    ensures
        address@ == match local {
            Some(addr) => address_of(addr),
            None => AddressView::V4(Ipv4Addr { bits: 0 }, 0),
        },
{
    match local {
        Some(addr) => socket_addr_to_address(addr),
        None => Address::V4(Ipv4Addr::unspecified(), 0),
    }
}

/// The SOCKS5 error that reports `error`.
pub open spec fn establish_reply(error: EstablishErrorView) -> Socks5Error {
    match error {
        EstablishErrorView::Dns(_) => Socks5Error::HostUnreachable,
        EstablishErrorView::Blocked => Socks5Error::NotAllowed,
        EstablishErrorView::Dial(error) => Socks5Error::closest(error.kind),
    }
}

/// `error` in words, `elapsed_ms` after the request.
pub open spec fn establish_message(
    target: AddressView,
    error: EstablishErrorView,
    elapsed_ms: nat,
) -> Seq<char> {
    match error {
        EstablishErrorView::Dns(detail) => "could not resolve "@ + target_text(target) + ": "@
            + detail,
        EstablishErrorView::Blocked => "destination not allowed: "@ + target_text(target),
        EstablishErrorView::Dial(error) => "connect to "@ + target_text(target) + " failed after "@
            + decimal(elapsed_ms) + " ms: "@ + error.message,
    }
}

/// `error` in words, `elapsed_ms` after the request.
pub fn failure_message(target: &Address, error: &EstablishError, elapsed_ms: u128) -> (msg: String)
    ensures
        msg@ == establish_message(target@, error@, elapsed_ms as nat),
{
    let target_str: String = address_to_string(target);
    match error {
        EstablishError::Dns(detail) => {
            let mut msg: String = "could not resolve ".to_owned();
            msg.append(target_str.as_str());
            msg.append(": ");
            msg.append(detail.as_str());
            msg
        },
        EstablishError::Blocked => {
            let mut msg: String = "destination not allowed: ".to_owned();
            msg.append(target_str.as_str());
            msg
        },
        EstablishError::Dial(error) => {
            let mut msg: String = "connect to ".to_owned();
            msg.append(target_str.as_str());
            msg.append(" failed after ");
            push_decimal(&mut msg, elapsed_ms);
            msg.append(" ms: ");
            msg.append(error.message.as_str());
            msg
        },
    }
}

/// The SOCKS5 error that reports `error`.
pub fn failure_of(error: &EstablishError) -> (reply: Socks5Error)
    ensures
        reply == establish_reply(error@),
{
    match error {
        EstablishError::Dns(_) => Socks5Error::HostUnreachable,
        EstablishError::Blocked => Socks5Error::NotAllowed,
        EstablishError::Dial(error) => Socks5Error::from_kind(error.kind),
    }
}

/// The IP address and the port of a literal target are dialed as they are, and
/// those of a socket address are told as they are.
pub proof fn literal_targets_are_taken_as_they_are(
    v4: Ipv4Addr,
    v6: Ipv6Addr,
    host: Seq<char>,
    port: u16,
    addr: SocketAddr,
)
    ensures
        literal(AddressView::V4(v4, port)) == Some(SocketAddr::V4(SocketAddrV4 { ip: v4, port })),
        literal(AddressView::V6(v6, port)) == Some(
            SocketAddr::V6(SocketAddrV6 { ip: v6, port, flowinfo: 0, scope_id: 0 }),
        ),
        literal(AddressView::Domain(host, port)) is None,
        addr matches SocketAddr::V4(a) ==> address_of(addr) == AddressView::V4(a.ip, a.port),
        addr matches SocketAddr::V6(a) ==> address_of(addr) == AddressView::V6(a.ip, a.port),
        address_of(addr).fits(),
{
}

/// A failed lookup is host unreachable, a refused address is not allowed, and a
/// failed dial is told by its kind; each in words that name the target.
pub proof fn failures_are_told_by_their_cause(
    host: Seq<char>,
    port: u16,
    detail: Seq<char>,
    kind: IoErrorKind,
    elapsed_ms: nat,
)
    ensures
        ({
            let target = AddressView::Domain(host, port);
            let name = host + ":"@ + decimal(port as nat);
            let dial = EstablishErrorView::Dial(IoFailureView { kind, message: detail });
            &&& target_text(target) == name
            &&& establish_reply(EstablishErrorView::Dns(detail)) == Socks5Error::HostUnreachable
            &&& establish_reply(EstablishErrorView::Blocked) == Socks5Error::NotAllowed
            &&& establish_reply(dial) == match kind {
                IoErrorKind::NetworkUnreachable => Socks5Error::NetworkUnreachable,
                IoErrorKind::HostUnreachable => Socks5Error::HostUnreachable,
                IoErrorKind::AddrNotAvailable => Socks5Error::HostUnreachable,
                IoErrorKind::ConnectionRefused => Socks5Error::ConnectionRefused,
                IoErrorKind::TimedOut => Socks5Error::TtlExpired,
                _ => Socks5Error::General,
            }
            &&& establish_message(target, EstablishErrorView::Dns(detail), elapsed_ms)
                == "could not resolve "@ + name + ": "@ + detail
            &&& establish_message(target, EstablishErrorView::Blocked, elapsed_ms)
                == "destination not allowed: "@ + name
            &&& establish_message(target, dial, elapsed_ms) == "connect to "@ + name
                + " failed after "@ + decimal(elapsed_ms) + " ms: "@ + detail
        }),
{
}

/// A literal target is named by its IP address, in brackets where it is IPv6, and
/// its port.
pub proof fn literal_targets_are_named(v4: Ipv4Addr, v6: Ipv6Addr, port: u16)
    ensures
        target_text(AddressView::V4(v4, port)) == ipv4_text(v4) + ":"@ + decimal(port as nat),
        target_text(AddressView::V6(v6, port)) == "["@ + ipv6_text(v6) + "]:"@ + decimal(
            port as nat,
        ),
{
}

} // verus!
