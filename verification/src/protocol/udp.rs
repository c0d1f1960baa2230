//! SOCKS5 UDP datagram header codec (RFC 1928 section 7): pure encode/decode, no IO.

use vstd::prelude::*;

use crate::bytes::copy_of;
use crate::protocol::address::{addresses_are_spelled, decode_inverts_encode, decoded, encode_inverts_decode, spells_address, AddrError, Address, AddressView};

verus! {

/// A decapsulated SOCKS5 UDP request datagram.
#[derive(Debug, PartialEq, Eq)]
pub struct UdpDatagram {
    /// Fragment number, returned as-is (caller decides to drop FRAG != 0).
    pub frag: u8,
    /// Destination address (DST.ADDR + DST.PORT).
    pub address: Address,
    /// Application payload following the address.
    pub data: Vec<u8>,
}

/// What a datagram stands for.
pub struct DatagramView {
    pub frag: u8,
    pub address: AddressView,
    pub data: Seq<u8>,
}

/// Errors produced while decapsulating a SOCKS5 UDP datagram.
#[derive(Debug, Clone, Copy, PartialEq, Eq, Structural)]
pub enum UdpError {
    /// Buffer ended before the full header could be read.
    Truncated,
    /// Address could not be decoded.
    Addr(AddrError),
}

/// A decapsulated SOCKS5 UDP datagram whose payload borrows the input buffer
/// (the relay hot path uses this to avoid a per-datagram copy).
#[derive(Debug, PartialEq, Eq)]
pub struct UdpDatagramRef<'a> {
    /// Fragment number, returned as-is (caller decides to drop FRAG != 0).
    pub frag: u8,
    /// Destination address (DST.ADDR + DST.PORT).
    pub address: Address,
    /// Application payload following the address, borrowed from the input.
    pub data: &'a [u8],
}

/// RSV(2) + FRAG(1) + ATYP(1): the minimum bytes before address parsing.
pub const MIN_HEADER: usize = 4;

impl View for UdpDatagram {
    type V = DatagramView;

    open spec fn view(&self) -> DatagramView {
        DatagramView { frag: self.frag, address: self.address@, data: self.data@ }
    }
}

impl<'a> View for UdpDatagramRef<'a> {
    type V = DatagramView;

    open spec fn view(&self) -> DatagramView {
        DatagramView { frag: self.frag, address: self.address@, data: self.data@ }
    }
}

impl Clone for UdpDatagram {
    fn clone(&self) -> (copy: UdpDatagram)
        ensures
            copy@ == self@,
    {
        UdpDatagram {
            frag: self.frag,
            address: self.address.clone(),
            data: copy_of(self.data.as_slice()),
        }
    }
}

/// The datagram that `buf` carries. The RSV bytes are ignored.
pub open spec fn datagram(buf: Seq<u8>) -> Result<DatagramView, UdpError> {
    if buf.len() < MIN_HEADER {
        Err(UdpError::Truncated)
    } else {
        match decoded(buf.skip(3)) {
            Ok((address, consumed)) => Ok(
                DatagramView { frag: buf[2], address, data: buf.skip(3 + consumed as int) },
            ),
            Err(error) => Err(UdpError::Addr(error)),
        }
    }
}

/// The unfragmented datagram with `data` for or from `address`.
pub open spec fn encapsulated(address: AddressView, data: Seq<u8>) -> Seq<u8> {
    seq![0x00u8, 0x00u8, 0x00u8] + address.encoded() + data
}

/// Parse a SOCKS5 UDP datagram, borrowing the payload from `buf`.
///
/// FRAG is returned as-is so the caller can decide to drop fragmented
/// datagrams (FRAG != 0).
pub fn decap_ref(buf: &[u8]) -> (result: Result<UdpDatagramRef<'_>, UdpError>)
    ensures
        match result {
            Ok(parsed) => datagram(buf@) == Ok::<DatagramView, UdpError>(parsed@),
            Err(error) => datagram(buf@) == Err::<DatagramView, UdpError>(error),
        },
{
    if buf.len() < MIN_HEADER {
        return Err(UdpError::Truncated);
    }
    // buf[0], buf[1] are RSV (0x0000) and ignored; buf[2] is FRAG.
    let frag: u8 = buf[2];
    // From byte 3 onward (ATYP + address + port) is parsed by Address::decode.
    let rest: &[u8] = vstd::slice::slice_subrange(buf, 3, buf.len());
    assert(rest@ =~= buf@.skip(3));
    match Address::decode(rest) {
        Ok((address, consumed)) => {
            let data: &[u8] = vstd::slice::slice_subrange(buf, 3 + consumed, buf.len());
            assert(data@ =~= buf@.skip(3 + consumed));
            Ok(UdpDatagramRef { frag, address, data })
        },
        Err(error) => Err(UdpError::Addr(error)),
    }
}

/// Parse a SOCKS5 UDP datagram into an owned [`UdpDatagram`].
pub fn decap(buf: &[u8]) -> (result: Result<UdpDatagram, UdpError>)
    ensures
        match result {
            Ok(parsed) => datagram(buf@) == Ok::<DatagramView, UdpError>(parsed@),
            Err(error) => datagram(buf@) == Err::<DatagramView, UdpError>(error),
        },
{
    match decap_ref(buf) {
        Ok(d) => Ok(UdpDatagram { frag: d.frag, address: d.address, data: copy_of(d.data) }),
        Err(error) => Err(error),
    }
}

/// Encode RSV(0x0000) FRAG(0x00) ATYP DST.ADDR DST.PORT DATA into `out`.
pub fn encap(address: &Address, data: &[u8], out: &mut Vec<u8>)
    ensures
        final(out)@ == old(out)@ + encapsulated(address@, data@),
{
    out.push(0x00);  // RSV
    out.push(0x00);  // RSV
    out.push(0x00);  // FRAG
    address.encode(out);
    out.extend_from_slice(data);
    assert(out@ =~= old(out)@ + encapsulated(address@, data@));
}

/// Decapsulating an encapsulated payload gives back the address and the
/// payload, unfragmented.
pub proof fn decap_inverts_encap(address: AddressView, data: Seq<u8>)
    requires
        address.fits(),
    ensures
        datagram(encapsulated(address, data)) == Ok::<DatagramView, UdpError>(
            DatagramView { frag: 0, address, data },
        ),
{
    let buf = encapsulated(address, data);
    let n = address.encoded().len();
    decode_inverts_encode(address, data);
    encode_inverts_decode(address.encoded() + data, address, n);
    assert(buf.skip(3) =~= address.encoded() + data);
    assert(buf.skip(3 + n as int) =~= data);
}

/// Encapsulating what a datagram with zeroed RSV and FRAG carries gives the
/// datagram back.
pub proof fn encap_inverts_decap(buf: Seq<u8>, parsed: DatagramView)
    requires
        datagram(buf) == Ok::<DatagramView, UdpError>(parsed),
        buf[0] == 0,
        buf[1] == 0,
        parsed.frag == 0,
    ensures
        encapsulated(parsed.address, parsed.data) == buf,
        parsed.address.fits(),
{
    let consumed = decoded(buf.skip(3))->Ok_0.1;
    encode_inverts_decode(buf.skip(3), parsed.address, consumed);
    assert(encapsulated(parsed.address, parsed.data) =~= buf);
}

/// A datagram is three bytes of which the third is the fragment number, the
/// spelled address, and the payload: all of the rest.
pub proof fn datagrams_are_spelled(rsv: u8, rsv2: u8, frag: u8, address: AddressView, data: Seq<u8>)
    requires
        address.fits(),
    ensures
        datagram(seq![rsv, rsv2, frag] + address.encoded() + data) == Ok::<DatagramView, UdpError>(
            DatagramView { frag, address, data },
        ),
        encapsulated(address, data) == seq![0u8, 0, 0] + address.encoded() + data,
        spells_address(address.encoded(), address),
{
    let buf = seq![rsv, rsv2, frag] + address.encoded() + data;
    let n = address.encoded().len();
    decode_inverts_encode(address, data);
    encode_inverts_decode(address.encoded() + data, address, n);
    addresses_are_spelled(address);
    assert(buf.skip(3) =~= address.encoded() + data);
    assert(buf.skip(3 + n as int) =~= data);
    assert(encapsulated(address, data) =~= seq![0u8, 0, 0] + address.encoded() + data);
}

/// A datagram is refused only where its header is cut short or its address is.
pub proof fn datagrams_fail_only_for_cause(buf: Seq<u8>)
    ensures
        match datagram(buf) {
            Ok(parsed) => buf.len() >= 4 && parsed.frag == buf[2] && decoded(buf.skip(3)) is Ok,
            Err(UdpError::Truncated) => buf.len() < 4,
            Err(UdpError::Addr(error)) => buf.len() >= 4 && decoded(buf.skip(3)) == Err::<
                (AddressView, nat),
                AddrError,
            >(error),
        },
{
}

} // verus!
