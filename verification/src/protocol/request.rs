//! SOCKS5 request codec (RFC 1928 section 4): pure parsing, no IO.

use vstd::prelude::*;

use crate::protocol::address::{addresses_are_spelled, decode_inverts_encode, decode_is_stable, decoded, encode_inverts_decode, spells_address, AddrError, Address, AddressView};

verus! {

/// SOCKS5 request command (the CMD field).
#[derive(Debug, Clone, Copy, PartialEq, Eq, Structural)]
pub enum Command {
    Connect,
    Bind,
    UdpAssociate,
}

/// A parsed SOCKS5 request: a command paired with its target address.
#[derive(Debug, PartialEq, Eq)]
pub struct Request {
    pub command: Command,
    pub address: Address,
}

/// What a [`Request`] stands for.
pub struct RequestView {
    pub command: Command,
    pub address: AddressView,
}

/// Errors produced while parsing a SOCKS5 request.
#[derive(Debug, Clone, Copy, PartialEq, Eq, Structural)]
pub enum RequestError {
    /// Buffer ended before the fixed header could be read.
    Truncated,
    /// VER field was not 0x05.
    BadVersion(u8),
    /// CMD field was not a known command.
    BadCommand(u8),
    /// The address portion failed to decode.
    Addr(AddrError),
}

/// The VER field of every request.
pub const VERSION: u8 = 0x05;

/// The CMD field of [`Command::Connect`].
pub const CMD_CONNECT: u8 = 0x01;

/// The CMD field of [`Command::Bind`].
pub const CMD_BIND: u8 = 0x02;

/// The CMD field of [`Command::UdpAssociate`].
pub const CMD_UDP_ASSOCIATE: u8 = 0x03;

/// The longest request: three bytes before the longest address.
pub const MAX_REQUEST: usize = 262;

impl View for Request {
    type V = RequestView;

    open spec fn view(&self) -> RequestView {
        RequestView { command: self.command, address: self.address@ }
    }
}

impl Clone for Request {
    fn clone(&self) -> (copy: Request)
        ensures
            copy == *self,
    {
        Request { command: self.command, address: self.address.clone() }
    }
}

impl Command {
    /// The CMD field that stands for this command.
    pub open spec fn code(self) -> u8 {
        match self {
            Command::Connect => CMD_CONNECT,
            Command::Bind => CMD_BIND,
            Command::UdpAssociate => CMD_UDP_ASSOCIATE,
        }
    }
}

/// The command that a CMD field stands for.
pub open spec fn command_of(code: u8) -> Option<Command> {
    if code == CMD_CONNECT {
        Some(Command::Connect)
    } else if code == CMD_BIND {
        Some(Command::Bind)
    } else if code == CMD_UDP_ASSOCIATE {
        Some(Command::UdpAssociate)
    } else {
        None
    }
}

/// The request at the start of `buf`. The RSV byte is ignored.
pub open spec fn requested(buf: Seq<u8>) -> Result<RequestView, RequestError> {
    if buf.len() < 4 {
        Err(RequestError::Truncated)
    } else if buf[0] != VERSION {
        Err(RequestError::BadVersion(buf[0]))
    } else {
        match command_of(buf[1]) {
            None => Err(RequestError::BadCommand(buf[1])),
            Some(command) => match decoded(buf.skip(3)) {
                Ok((address, _)) => Ok(RequestView { command, address }),
                Err(error) => Err(RequestError::Addr(error)),
            },
        }
    }
}

/// Whether `error` only says that more bytes are needed.
pub open spec fn unfinished(error: RequestError) -> bool {
    error == RequestError::Truncated || error == RequestError::Addr(AddrError::Truncated)
}

/// The message that makes `request`, with `rsv` in the ignored byte.
pub open spec fn request_message(request: RequestView, rsv: u8) -> Seq<u8> {
    seq![VERSION, request.command.code(), rsv] + request.address.encoded()
}

/// Parse a SOCKS5 request: `VER CMD RSV ATYP DST.ADDR DST.PORT`.
///
/// The RSV byte is ignored. The address (from byte 3 onward) is decoded via
/// [`Address::decode`].
pub fn parse_request(buf: &[u8]) -> (result: Result<Request, RequestError>)
    ensures
        match result {
            Ok(request) => requested(buf@) == Ok::<RequestView, RequestError>(request@),
            Err(error) => requested(buf@) == Err::<RequestView, RequestError>(error),
        },
{
    // Fixed header is VER CMD RSV ATYP; need at least 4 bytes.
    if buf.len() < 4 {
        return Err(RequestError::Truncated);
    }
    if buf[0] != VERSION {
        return Err(RequestError::BadVersion(buf[0]));
    }
    let code: u8 = buf[1];
    let command: Command = if code == CMD_CONNECT {
        Command::Connect
    } else if code == CMD_BIND {
        Command::Bind
    } else if code == CMD_UDP_ASSOCIATE {
        Command::UdpAssociate
    } else {
        return Err(RequestError::BadCommand(code));
    };
    // buf[2] is RSV, ignored. Address begins at byte 3 (ATYP).
    let rest: &[u8] = vstd::slice::slice_subrange(buf, 3, buf.len());
    assert(rest@ =~= buf@.skip(3));
    match Address::decode(rest) {
        Ok((address, _)) => Ok(Request { command, address }),
        Err(error) => Err(RequestError::Addr(error)),
    }
}

/// Parsing a request gives back the command and address that it was made of
/// and ignores the RSV byte and what follows.
pub proof fn parse_inverts_request(request: RequestView, rsv: u8, tail: Seq<u8>)
    requires
        request.address.fits(),
    ensures
        requested(request_message(request, rsv) + tail) == Ok::<RequestView, RequestError>(request),
{
    let buf = request_message(request, rsv) + tail;
    decode_inverts_encode(request.address, tail);
    encode_inverts_decode(
        request.address.encoded() + tail,
        request.address,
        request.address.encoded().len(),
    );
    assert(buf.skip(3) =~= request.address.encoded() + tail);
}

/// A parsed request is the message made of its command and address, and of the
/// RSV byte that was ignored.
pub proof fn request_inverts_parse(buf: Seq<u8>, request: RequestView)
    requires
        requested(buf) == Ok::<RequestView, RequestError>(request),
    ensures
        3 + request.address.encoded().len() <= buf.len(),
        request_message(request, buf[2]) == buf.take((3 + request.address.encoded().len()) as int),
        request.address.fits(),
{
    let consumed = decoded(buf.skip(3))->Ok_0.1;
    encode_inverts_decode(buf.skip(3), request.address, consumed);
    assert(request_message(request, buf[2]) =~= buf.take((3 + consumed) as int));
}

/// Once the bytes at hand settle what is requested, or that the request is
/// malformed, further bytes change nothing; and until then fewer than
/// [`MAX_REQUEST`] bytes are at hand.
pub proof fn request_is_stable(buf: Seq<u8>, more: Seq<u8>)
    ensures
        requested(buf) matches Err(error) && unfinished(error) ==> buf.len() < MAX_REQUEST,
        !(requested(buf) matches Err(error) && unfinished(error)) ==> requested(buf + more)
            == requested(buf),
{
    if buf.len() >= 4 {
        decode_is_stable(buf.skip(3), more);
        assert((buf + more).skip(3) =~= buf.skip(3) + more);
    }
}

/// A request is version 5, a command byte of 1, 2 or 3, an ignored byte and the
/// spelled address; what is requested is what those bytes say.
pub proof fn requests_are_spelled(buf: Seq<u8>, request: RequestView)
    requires
        requested(buf) == Ok::<RequestView, RequestError>(request),
    ensures
        buf.len() >= 4,
        buf[0] == 5,
        request.command is Connect <==> buf[1] == 1,
        request.command is Bind <==> buf[1] == 2,
        request.command is UdpAssociate <==> buf[1] == 3,
        exists|n: int| 3 < n <= buf.len() && spells_address(#[trigger] buf.subrange(3, n), request.address),
{
    request_inverts_parse(buf, request);
    let n = (3 + request.address.encoded().len()) as int;
    let consumed = decoded(buf.skip(3))->Ok_0.1;
    encode_inverts_decode(buf.skip(3), request.address, consumed);
    addresses_are_spelled(request.address);
    assert(buf.subrange(3, n) =~= request.address.encoded());
}

/// A request is refused for another version first, then for an unknown command,
/// then for its address; and it is unfinished only while bytes are missing.
pub proof fn requests_fail_only_for_cause(buf: Seq<u8>)
    ensures
        match requested(buf) {
            Ok(_) => true,
            Err(RequestError::Truncated) => buf.len() < 4,
            Err(RequestError::BadVersion(version)) => buf.len() >= 4 && buf[0] == version
                && version != 5,
            Err(RequestError::BadCommand(command)) => buf.len() >= 4 && buf[0] == 5 && buf[1]
                == command && !(1 <= command <= 3),
            Err(RequestError::Addr(error)) => buf.len() >= 4 && buf[0] == 5 && 1 <= buf[1] <= 3
                && decoded(buf.skip(3)) == Err::<(AddressView, nat), AddrError>(error),
        },
        buf.len() >= 4 && buf[0] == 5 && 1 <= buf[1] <= 3 && decoded(buf.skip(3)) is Ok
            ==> requested(buf) is Ok,
{
}

} // verus!
