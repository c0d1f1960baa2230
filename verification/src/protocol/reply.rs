//! SOCKS5 reply codec (RFC 1928 section 6): pure encoding, no IO.

use vstd::prelude::*;

use crate::error::Socks5Error;
use crate::net::{IpAddr, Ipv4Addr};
use crate::bytes::{be_bytes, be_value};
use crate::protocol::address::{addresses_are_spelled, decode_inverts_encode, decoded, spells_address, AddrError, Address, AddressView};

verus! {

/// REP field value indicating the request succeeded.
pub const REP_SUCCEEDED: u8 = 0x00;

const VERSION: u8 = 0x05;

const RSV: u8 = 0x00;

/// The reply with REP `code` and bound address `bind`.
pub open spec fn reply_bytes(code: u8, bind: AddressView) -> Seq<u8> {
    seq![0x05u8, code, 0x00u8] + bind.encoded()
}

/// Append a SOCKS5 reply to `out`: `VER(0x05) REP RSV(0x00) ATYP BND.ADDR BND.PORT`.
pub fn encode_reply(code: u8, bind: &Address, out: &mut Vec<u8>)
    ensures
        final(out)@ == old(out)@ + reply_bytes(code, bind@),
{
    out.push(VERSION);
    out.push(code);
    out.push(RSV);
    bind.encode(out);
    assert(out@ =~= old(out)@ + reply_bytes(code, bind@));
}

/// The reply that reports `error`, with a zeroed IPv4 BND address.
pub open spec fn failure_bytes(error: Socks5Error) -> Seq<u8> {
    reply_bytes(error.code(), AddressView::V4(Ipv4Addr { bits: 0 }, 0))
}

/// Build the reply that reports `error`, with a zeroed IPv4 BND address.
pub fn failure_reply(error: Socks5Error) -> (reply: Vec<u8>)
    ensures
        reply@ == failure_bytes(error),
{
    let mut reply: Vec<u8> = Vec::with_capacity(10);
    let bind: Address = Address::V4(Ipv4Addr::unspecified(), 0);
    encode_reply(error.reply_code(), &bind, &mut reply);
    assert(reply@ =~= failure_bytes(error));
    reply
}

/// Build the reply that reports success with `bind` as the BND address.
pub fn success_reply(bind: &Address) -> (reply: Vec<u8>)
    ensures
        reply@ == reply_bytes(REP_SUCCEEDED, bind@),
{
    let mut reply: Vec<u8> = Vec::with_capacity(22);
    encode_reply(REP_SUCCEEDED, bind, &mut reply);
    assert(reply@ =~= reply_bytes(REP_SUCCEEDED, bind@));
    reply
}

/// A client finds the code of a reply in its second byte, and behind its third
/// the BND address, whatever follows the reply.
pub proof fn replies_can_be_read(code: u8, bind: AddressView, tail: Seq<u8>)
    requires
        bind.fits(),
    ensures
        ({
            let stream = reply_bytes(code, bind) + tail;
            &&& stream[0] == 0x05
            &&& stream[1] == code
            &&& stream[2] == 0x00
            &&& decoded(stream.skip(3)) == Ok::<(AddressView, nat), AddrError>(
                (bind, (reply_bytes(code, bind).len() - 3) as nat),
            )
        }),
{
    let stream = reply_bytes(code, bind) + tail;
    decode_inverts_encode(bind, tail);
    assert(stream.skip(3) =~= bind.encoded() + tail);
}

/// A refused request is answered by ten bytes: the code of the error, and a zero
/// IPv4 address.
pub proof fn refusals_have_one_form(error: Socks5Error)
    ensures
        failure_bytes(error) == seq![0x05u8, error.code(), 0, 0x01, 0, 0, 0, 0, 0, 0],
        error.code() != REP_SUCCEEDED,
{
    reveal_with_fuel(be_bytes, 5);
    assert(be_bytes(0, 4) =~= seq![0u8, 0, 0, 0]);
    assert(be_bytes(0, 2) =~= seq![0u8, 0]);
    assert(failure_bytes(error) =~= seq![0x05u8, error.code(), 0, 0x01, 0, 0, 0, 0, 0, 0]);
}

/// Whether `reply` is one of success that names `ip` and `port`: version 5, code
/// 0, the IP address by its family, then the port, high byte first.
pub open spec fn names_endpoint(reply: Seq<u8>, ip: IpAddr, port: u16) -> bool {
    &&& reply.len() >= 4
    &&& reply[0] == 5
    &&& reply[1] == 0
    &&& reply[2] == 0
    &&& match ip {
        IpAddr::V4(v4) => {
            &&& reply.len() == 10
            &&& reply[3] == 1
            &&& v4.bits == reply[4] * 0x100_0000 + reply[5] * 0x1_0000 + reply[6] * 0x100
                + reply[7]
            &&& port == reply[8] * 256 + reply[9]
        },
        IpAddr::V6(v6) => {
            &&& reply.len() == 22
            &&& reply[3] == 4
            &&& v6.bits == be_value(reply.subrange(4, 20))
            &&& port == reply[20] * 256 + reply[21]
        },
    }
}

/// A success reply names the IP address and the port of its BND address.
pub proof fn success_replies_name_the_endpoint(ip: IpAddr, port: u16)
    ensures
        names_endpoint(
            reply_bytes(
                REP_SUCCEEDED,
                match ip {
                    IpAddr::V4(v4) => AddressView::V4(v4, port),
                    IpAddr::V6(v6) => AddressView::V6(v6, port),
                },
            ),
            ip,
            port,
        ),
{
    let bind = match ip {
        IpAddr::V4(v4) => AddressView::V4(v4, port),
        IpAddr::V6(v6) => AddressView::V6(v6, port),
    };
    let reply = reply_bytes(REP_SUCCEEDED, bind);
    addresses_are_spelled(bind);
    if ip is V6 {
        assert(reply.subrange(4, 20) =~= bind.encoded().subrange(1, 17));
    }
}

/// A reply is version 5, its code, a zero byte and the spelled BND address.
pub proof fn replies_are_spelled(code: u8, bind: AddressView)
    requires
        bind.fits(),
    ensures
        reply_bytes(code, bind).take(3) == seq![5u8, code, 0u8],
        spells_address(reply_bytes(code, bind).skip(3), bind),
{
    addresses_are_spelled(bind);
    assert(reply_bytes(code, bind).take(3) =~= seq![5u8, code, 0u8]);
    assert(reply_bytes(code, bind).skip(3) =~= bind.encoded());
}

/// Every error is answered by the code that RFC 1928 gives it.
pub proof fn refusals_carry_the_code_of_their_error(error: Socks5Error)
    ensures
        failure_bytes(error).len() == 10,
        failure_bytes(error)[1] == match error {
            Socks5Error::General => 1u8,
            Socks5Error::NotAllowed => 2,
            Socks5Error::NetworkUnreachable => 3,
            Socks5Error::HostUnreachable => 4,
            Socks5Error::ConnectionRefused => 5,
            Socks5Error::TtlExpired => 6,
            Socks5Error::CommandNotSupported => 7,
            Socks5Error::AddressNotSupported => 8,
        },
{
    refusals_have_one_form(error);
}

} // verus!
