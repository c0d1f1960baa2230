//! SOCKS5 address codec (RFC 1928 section 4): pure encode/decode, no IO.

use vstd::prelude::*;
use vstd::utf8::*;

use crate::bytes::{be_bytes, be_value, lemma_be_bytes_len, lemma_be_bytes_of_value, lemma_be_limits, lemma_be_value_of_bytes, push_be, read_be, two_bytes_are_high_then_low, utf8_string};
use crate::net::{lemma_be_value_of_four, Ipv4Addr, Ipv6Addr};

verus! {

/// A SOCKS5 address: an IPv4/IPv6 endpoint or a domain name, each with a port.
#[derive(Debug, PartialEq, Eq)]
pub enum Address {
    V4(Ipv4Addr, u16),
    V6(Ipv6Addr, u16),
    Domain(String, u16),
}

/// What an [`Address`] stands for: the domain name as its characters.
pub enum AddressView {
    V4(Ipv4Addr, u16),
    V6(Ipv6Addr, u16),
    Domain(Seq<char>, u16),
}

/// Errors produced while decoding a SOCKS5 address.
#[derive(Debug, Clone, Copy, PartialEq, Eq, Structural)]
pub enum AddrError {
    /// Buffer ended before the full address could be read.
    Truncated,
    /// Unknown ATYP byte.
    BadAtyp(u8),
    /// Domain name was not valid UTF-8.
    BadDomain,
}

/// ATYP of an IPv4 address.
pub const ATYP_V4: u8 = 0x01;

/// ATYP of a domain name.
pub const ATYP_DOMAIN: u8 = 0x03;

/// ATYP of an IPv6 address.
pub const ATYP_V6: u8 = 0x04;

/// The longest encoding of an address: ATYP, length, 255 bytes of name, port.
pub const MAX_ENCODED: usize = 259;

impl View for Address {
    type V = AddressView;

    open spec fn view(&self) -> AddressView {
        match self {
            Address::V4(ip, port) => AddressView::V4(*ip, *port),
            Address::V6(ip, port) => AddressView::V6(*ip, *port),
            Address::Domain(domain, port) => AddressView::Domain(domain@, *port),
        }
    }
}

impl Clone for Address {
    fn clone(&self) -> (copy: Address)
        ensures
            copy == *self,
    {
        match self {
            Address::V4(ip, port) => Address::V4(*ip, *port),
            Address::V6(ip, port) => Address::V6(*ip, *port),
            Address::Domain(domain, port) => Address::Domain(domain.clone(), *port),
        }
    }
}

impl AddressView {
    /// The bytes on the wire: ATYP, address, big-endian port. The length of a
    /// domain name is written as its low byte.
    pub open spec fn encoded(self) -> Seq<u8> {
        match self {
            AddressView::V4(ip, port) => seq![ATYP_V4] + ip.spec_octets() + be_bytes(port as nat, 2),
            AddressView::V6(ip, port) => seq![ATYP_V6] + ip.spec_octets() + be_bytes(port as nat, 2),
            AddressView::Domain(domain, port) => {
                let name = encode_utf8(domain);
                seq![ATYP_DOMAIN, (name.len() % 256) as u8] + name + be_bytes(port as nat, 2)
            },
        }
    }

    /// Whether the wire format can carry this address: one byte holds the
    /// length of a domain name.
    pub open spec fn fits(self) -> bool {
        self matches AddressView::Domain(domain, _) ==> encode_utf8(domain).len() <= 255
    }
}

/// The port at `index` of `buf`.
pub open spec fn port_at(buf: Seq<u8>, index: int) -> u16 {
    be_value(buf.subrange(index, index + 2)) as u16
}

/// What the start of `buf` decodes to: the address and how many bytes it takes.
pub open spec fn decoded(buf: Seq<u8>) -> Result<(AddressView, nat), AddrError> {
    if buf.len() < 1 {
        Err(AddrError::Truncated)
    } else if buf[0] == ATYP_V4 {
        if buf.len() < 7 {
            Err(AddrError::Truncated)
        } else {
            let ip = Ipv4Addr { bits: be_value(buf.subrange(1, 5)) as u32 };
            Ok((AddressView::V4(ip, port_at(buf, 5)), 7))
        }
    } else if buf[0] == ATYP_V6 {
        if buf.len() < 19 {
            Err(AddrError::Truncated)
        } else {
            let ip = Ipv6Addr { bits: be_value(buf.subrange(1, 17)) as u128 };
            Ok((AddressView::V6(ip, port_at(buf, 17)), 19))
        }
    } else if buf[0] == ATYP_DOMAIN {
        if buf.len() < 2 || buf.len() < buf[1] + 4 {
            Err(AddrError::Truncated)
        } else {
            let name = buf.subrange(2, 2 + buf[1]);
            if valid_utf8(name) {
                Ok((AddressView::Domain(decode_utf8(name), port_at(buf, 2 + buf[1])), (buf[1] + 4) as nat))
            } else {
                Err(AddrError::BadDomain)
            }
        }
    } else {
        Err(AddrError::BadAtyp(buf[0]))
    }
}

impl Address {
    /// Decode an address from the start of `buf`.
    ///
    /// Returns the parsed [`Address`] and the number of bytes consumed. Any
    /// trailing bytes in `buf` are left untouched.
    pub fn decode(buf: &[u8]) -> (result: Result<(Address, usize), AddrError>)
        ensures
            match result {
                Ok((address, consumed)) => decoded(buf@) == Ok::<(AddressView, nat), AddrError>(
                    (address@, consumed as nat),
                ) && consumed <= buf.len(),
                Err(error) => decoded(buf@) == Err::<(AddressView, nat), AddrError>(error),
            },
    {
        if buf.len() < 1 {
            return Err(AddrError::Truncated);
        }
        proof {
            lemma_be_limits();
        }
        let atyp: u8 = buf[0];
        if atyp == ATYP_V4 {
            // 1 (ATYP) + 4 (addr) + 2 (port)
            if buf.len() < 7 {
                return Err(AddrError::Truncated);
            }
            proof {
                lemma_be_bytes_of_value(buf@.subrange(1, 5));
                lemma_be_bytes_of_value(buf@.subrange(5, 7));
            }
            let bits: u32 = read_be(buf, 1, 4) as u32;
            let port: u16 = read_be(buf, 5, 2) as u16;
            Ok((Address::V4(Ipv4Addr { bits }, port), 7))
        } else if atyp == ATYP_V6 {
            // 1 (ATYP) + 16 (addr) + 2 (port)
            if buf.len() < 19 {
                return Err(AddrError::Truncated);
            }
            proof {
                lemma_be_bytes_of_value(buf@.subrange(1, 17));
                lemma_be_bytes_of_value(buf@.subrange(17, 19));
            }
            let bits: u128 = read_be(buf, 1, 16);
            let port: u16 = read_be(buf, 17, 2) as u16;
            Ok((Address::V6(Ipv6Addr { bits }, port), 19))
        } else if atyp == ATYP_DOMAIN {
            // 1 (ATYP) + 1 (len) + N (domain) + 2 (port)
            if buf.len() < 2 {
                return Err(AddrError::Truncated);
            }
            let len: usize = buf[1] as usize;
            let total: usize = 2 + len + 2;
            if buf.len() < total {
                return Err(AddrError::Truncated);
            }
            match utf8_string(vstd::slice::slice_subrange(buf, 2, 2 + len)) {
                Some(domain) => {
                    proof {
                        lemma_be_bytes_of_value(buf@.subrange(2 + len, 4 + len));
                    }
                    let port: u16 = read_be(buf, 2 + len, 2) as u16;
                    Ok((Address::Domain(domain, port), total))
                },
                None => Err(AddrError::BadDomain),
            }
        } else {
            Err(AddrError::BadAtyp(atyp))
        }
    }

    /// Encode this address (ATYP + address + port) onto the end of `out`.
    pub fn encode(&self, out: &mut Vec<u8>)
        ensures
            final(out)@ == old(out)@ + self@.encoded(),
    {
        match self {
            Address::V4(ip, port) => {
                out.push(ATYP_V4);
                push_be(out, ip.bits as u128, 4);
                push_be(out, *port as u128, 2);
            },
            Address::V6(ip, port) => {
                out.push(ATYP_V6);
                push_be(out, ip.bits, 16);
                push_be(out, *port as u128, 2);
            },
            Address::Domain(domain, port) => {
                let name: &[u8] = domain.as_str().as_bytes();
                out.push(ATYP_DOMAIN);
                // Domain length is bounded to a single byte by the wire format.
                out.push((name.len() % 256) as u8);
                out.extend_from_slice(name);
                push_be(out, *port as u128, 2);
            },
        }
        assert(out@ =~= old(out)@ + self@.encoded());
    }
}

/// Decoding an encoded address gives the address back and leaves whatever
/// follows it alone.
pub proof fn decode_inverts_encode(address: AddressView, tail: Seq<u8>)
    requires
        address.fits(),
    ensures
        decoded(address.encoded() + tail) == Ok::<(AddressView, nat), AddrError>(
            (address, address.encoded().len()),
        ),
        address.encoded().len() <= MAX_ENCODED,
{
    lemma_be_limits();
    let buf = address.encoded() + tail;
    match address {
        AddressView::V4(ip, port) => {
            lemma_be_bytes_len(ip.bits as nat, 4);
            lemma_be_bytes_len(port as nat, 2);
            lemma_be_value_of_bytes(ip.bits as nat, 4);
            lemma_be_value_of_bytes(port as nat, 2);
            assert(buf.subrange(1, 5) =~= ip.spec_octets());
            assert(buf.subrange(5, 7) =~= be_bytes(port as nat, 2));
        },
        AddressView::V6(ip, port) => {
            lemma_be_bytes_len(ip.bits as nat, 16);
            lemma_be_bytes_len(port as nat, 2);
            lemma_be_value_of_bytes(ip.bits as nat, 16);
            lemma_be_value_of_bytes(port as nat, 2);
            assert(buf.subrange(1, 17) =~= ip.spec_octets());
            assert(buf.subrange(17, 19) =~= be_bytes(port as nat, 2));
        },
        AddressView::Domain(domain, port) => {
            let name = encode_utf8(domain);
            let len = name.len() as int;
            lemma_be_bytes_len(port as nat, 2);
            lemma_be_value_of_bytes(port as nat, 2);
            encode_utf8_valid_utf8(domain);
            encode_utf8_decode_utf8(domain);
            assert(buf[1] == name.len());
            assert(buf.subrange(2, 2 + len) =~= name);
            assert(buf.subrange(2 + len, 4 + len) =~= be_bytes(port as nat, 2));
        },
    }
}

/// Encoding a decoded address gives back exactly the bytes it was read from.
pub proof fn encode_inverts_decode(buf: Seq<u8>, address: AddressView, consumed: nat)
    requires
        decoded(buf) == Ok::<(AddressView, nat), AddrError>((address, consumed)),
    ensures
        consumed <= buf.len(),
        consumed <= MAX_ENCODED,
        address.encoded() == buf.take(consumed as int),
        address.fits(),
{
    lemma_be_limits();
    match address {
        AddressView::V4(ip, port) => {
            lemma_be_bytes_of_value(buf.subrange(1, 5));
            lemma_be_bytes_of_value(buf.subrange(5, 7));
            assert(address.encoded() =~= buf.take(7));
        },
        AddressView::V6(ip, port) => {
            lemma_be_bytes_of_value(buf.subrange(1, 17));
            lemma_be_bytes_of_value(buf.subrange(17, 19));
            assert(address.encoded() =~= buf.take(19));
        },
        AddressView::Domain(domain, port) => {
            let len = buf[1] as int;
            let name = buf.subrange(2, 2 + len);
            decode_utf8_encode_utf8(name);
            lemma_be_bytes_of_value(buf.subrange(2 + len, 4 + len));
            assert(address.encoded() =~= buf.take(4 + len));
        },
    }
}

/// Once the bytes at hand settle what an address is, or that there is none,
/// further bytes change nothing; and until then fewer than [`MAX_ENCODED`]
/// bytes are at hand.
pub proof fn decode_is_stable(buf: Seq<u8>, more: Seq<u8>)
    ensures
        decoded(buf) == Err::<(AddressView, nat), AddrError>(AddrError::Truncated) ==> buf.len()
            < MAX_ENCODED,
        decoded(buf) != Err::<(AddressView, nat), AddrError>(AddrError::Truncated) ==> decoded(
            buf + more,
        ) == decoded(buf),
{
    let whole = buf + more;
    if decoded(buf) != Err::<(AddressView, nat), AddrError>(AddrError::Truncated) {
        if buf[0] == ATYP_V4 {
            assert(whole.subrange(1, 5) =~= buf.subrange(1, 5));
            assert(whole.subrange(5, 7) =~= buf.subrange(5, 7));
        } else if buf[0] == ATYP_V6 {
            assert(whole.subrange(1, 17) =~= buf.subrange(1, 17));
            assert(whole.subrange(17, 19) =~= buf.subrange(17, 19));
        } else if buf[0] == ATYP_DOMAIN {
            let len = buf[1] as int;
            assert(whole.subrange(2, 2 + len) =~= buf.subrange(2, 2 + len));
            assert(whole.subrange(2 + len, 4 + len) =~= buf.subrange(2 + len, 4 + len));
        }
    }
}

/// Whether `bytes` spell an address on the wire: its type, the IP address or the
/// name behind its length, then the port, high byte first.
pub open spec fn spells_address(bytes: Seq<u8>, address: AddressView) -> bool {
    let n = bytes.len() as int;
    match address {
        AddressView::V4(ip, port) => {
            &&& n == 7
            &&& bytes[0] == 1
            &&& ip.bits == bytes[1] * 0x100_0000 + bytes[2] * 0x1_0000 + bytes[3] * 0x100
                + bytes[4]
            &&& port == bytes[5] * 256 + bytes[6]
        },
        AddressView::V6(ip, port) => {
            &&& n == 19
            &&& bytes[0] == 4
            &&& ip.bits == be_value(bytes.subrange(1, 17))
            &&& port == bytes[17] * 256 + bytes[18]
        },
        AddressView::Domain(domain, port) => {
            &&& n == bytes[1] + 4
            &&& bytes[0] == 3
            &&& bytes.subrange(2, n - 2) == encode_utf8(domain)
            &&& port == bytes[n - 2] * 256 + bytes[n - 1]
        },
    }
}

/// An encoded address is spelled as the protocol asks.
pub proof fn addresses_are_spelled(address: AddressView)
    requires
        address.fits(),
    ensures
        spells_address(address.encoded(), address),
{
    let bytes = address.encoded();
    lemma_be_limits();
    match address {
        AddressView::V4(ip, port) => {
            two_bytes_are_high_then_low(port);
            lemma_be_bytes_len(ip.bits as nat, 4);
            lemma_be_value_of_bytes(ip.bits as nat, 4);
            lemma_be_value_of_four(ip.spec_octets());
        },
        AddressView::V6(ip, port) => {
            two_bytes_are_high_then_low(port);
            lemma_be_bytes_len(ip.bits as nat, 16);
            lemma_be_value_of_bytes(ip.bits as nat, 16);
            assert(bytes.subrange(1, 17) =~= ip.spec_octets());
        },
        AddressView::Domain(domain, port) => {
            two_bytes_are_high_then_low(port);
            let n = bytes.len() as int;
            assert(bytes.subrange(2, n - 2) =~= encode_utf8(domain));
        },
    }
}

/// An address is decoded from bytes that spell it, and from no others: the type
/// must be known, all of it must be there, and a name must be UTF-8.
pub proof fn decoding_fails_only_for_cause(buf: Seq<u8>)
    ensures
        ({
            let needed = if buf.len() == 0 {
                1
            } else if buf[0] == 1 {
                7
            } else if buf[0] == 4 {
                19
            } else if buf.len() == 1 {
                2
            } else {
                buf[1] + 4
            };
            let known = buf.len() == 0 || buf[0] == 1 || buf[0] == 3 || buf[0] == 4;
            match decoded(buf) {
                Ok((address, consumed)) => known && consumed == needed && needed <= buf.len()
                    && spells_address(buf.take(consumed as int), address),
                Err(AddrError::Truncated) => known && buf.len() < needed,
                Err(AddrError::BadAtyp(atyp)) => !known && atyp == buf[0],
                Err(AddrError::BadDomain) => buf.len() > 0 && buf[0] == 3 && needed <= buf.len()
                    && !valid_utf8(buf.subrange(2, 2 + buf[1])),
            }
        }),
{
    if let Ok((address, consumed)) = decoded(buf) {
        encode_inverts_decode(buf, address, consumed);
        addresses_are_spelled(address);
    }
}

} // verus!
