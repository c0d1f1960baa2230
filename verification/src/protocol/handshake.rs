//! SOCKS5 handshake (RFC 1928 section 3) and username/password auth
//! (RFC 1929): pure encode/decode, no IO.

use vstd::prelude::*;
use vstd::utf8::*;

use crate::bytes::{copy_of, utf8_string};

verus! {

/// SOCKS protocol version.
pub const VERSION: u8 = 0x05;

/// Method: no authentication required.
pub const METHOD_NO_AUTH: u8 = 0x00;

/// Method: username/password authentication (RFC 1929).
pub const METHOD_USERPASS: u8 = 0x02;

/// Method: no acceptable methods offered by the client.
pub const METHOD_NONE_ACCEPTABLE: u8 = 0xFF;

/// RFC 1929 username/password auth subnegotiation version.
pub const USERPASS_VERSION: u8 = 0x01;

/// The longest greeting: version, count, 255 methods.
pub const MAX_GREETING: usize = 257;

/// The longest username/password message: version, and two strings of 255
/// bytes, each behind its length.
pub const MAX_USERPASS: usize = 513;

/// Errors produced while decoding handshake/auth messages.
#[derive(Debug, Clone, Copy, PartialEq, Eq, Structural)]
pub enum HandshakeError {
    /// Buffer ended before the full message could be read.
    Truncated,
    /// Unexpected version byte.
    BadVersion(u8),
    /// A length-prefixed string was not valid UTF-8.
    BadDomain,
}

/// The methods that the greeting at the start of `buf` offers.
pub open spec fn greeting(buf: Seq<u8>) -> Result<Seq<u8>, HandshakeError> {
    if buf.len() < 1 {
        Err(HandshakeError::Truncated)
    } else if buf[0] != VERSION {
        Err(HandshakeError::BadVersion(buf[0]))
    } else if buf.len() < 2 || buf.len() < 2 + buf[1] {
        Err(HandshakeError::Truncated)
    } else {
        Ok(buf.subrange(2, 2 + buf[1]))
    }
}

/// The greeting that offers `methods`.
pub open spec fn greeting_message(methods: Seq<u8>) -> Seq<u8> {
    seq![VERSION, methods.len() as u8] + methods
}

/// Parse a client greeting (VER NMETHODS METHODS...), returning the offered
/// methods list.
pub fn parse_greeting(buf: &[u8]) -> (result: Result<Vec<u8>, HandshakeError>)
    ensures
        match result {
            Ok(methods) => greeting(buf@) == Ok::<Seq<u8>, HandshakeError>(methods@)
                && methods@.len() <= 255 && 2 + methods@.len() <= buf.len(),
            Err(error) => greeting(buf@) == Err::<Seq<u8>, HandshakeError>(error),
        },
{
    if buf.len() < 1 {
        return Err(HandshakeError::Truncated);
    }
    let ver: u8 = buf[0];
    if ver != VERSION {
        return Err(HandshakeError::BadVersion(ver));
    }
    if buf.len() < 2 {
        return Err(HandshakeError::Truncated);
    }
    let nmethods: usize = buf[1] as usize;
    if buf.len() < 2 + nmethods {
        return Err(HandshakeError::Truncated);
    }
    Ok(copy_of(vstd::slice::slice_subrange(buf, 2, 2 + nmethods)))
}

/// The method that `require_userpass` asks for.
pub open spec fn wanted_method(require_userpass: bool) -> u8 {
    if require_userpass {
        METHOD_USERPASS
    } else {
        METHOD_NO_AUTH
    }
}

/// The wanted method where it was offered, else none.
pub open spec fn selected_method(offered: Seq<u8>, require_userpass: bool) -> u8 {
    if offered.contains(wanted_method(require_userpass)) {
        wanted_method(require_userpass)
    } else {
        METHOD_NONE_ACCEPTABLE
    }
}

/// Choose an authentication method from the client's offered list.
///
/// When `require_userpass` is set, only [`METHOD_USERPASS`] is acceptable;
/// otherwise only [`METHOD_NO_AUTH`] is acceptable. Returns
/// [`METHOD_NONE_ACCEPTABLE`] when the required method was not offered.
pub fn select_method(offered: &[u8], require_userpass: bool) -> (method: u8)
    ensures
        method == selected_method(offered@, require_userpass),
{
    let wanted: u8 = if require_userpass {
        METHOD_USERPASS
    } else {
        METHOD_NO_AUTH
    };
    let mut i: usize = 0;
    while i < offered.len()
        invariant
            i <= offered.len(),
            wanted == wanted_method(require_userpass),
            forall|j: int| 0 <= j < i ==> offered@[j] != wanted,
        decreases offered.len() - i,
    {
        if offered[i] == wanted {
            assert(offered@[i as int] == wanted);
            return wanted;
        }
        i += 1;
    }
    METHOD_NONE_ACCEPTABLE
}

/// Build a server method-selection reply: `[VERSION, method]`.
pub fn method_reply(method: u8) -> (reply: [u8; 2])
    ensures
        reply@ == seq![VERSION, method],
{
    let reply: [u8; 2] = [VERSION, method];
    assert(reply@ =~= seq![VERSION, method]);
    reply
}

/// The username and password that the message at the start of `buf` carries.
pub open spec fn userpass(buf: Seq<u8>) -> Result<(Seq<char>, Seq<char>), HandshakeError> {
    if buf.len() < 1 {
        Err(HandshakeError::Truncated)
    } else if buf[0] != USERPASS_VERSION {
        Err(HandshakeError::BadVersion(buf[0]))
    } else if buf.len() < 2 || buf.len() < 3 + buf[1] || buf.len() < 3 + buf[1] + buf[2 + buf[1]] {
        Err(HandshakeError::Truncated)
    } else {
        let uname = buf.subrange(2, 2 + buf[1]);
        let passwd = buf.subrange(3 + buf[1], 3 + buf[1] + buf[2 + buf[1]]);
        if valid_utf8(uname) && valid_utf8(passwd) {
            Ok((decode_utf8(uname), decode_utf8(passwd)))
        } else {
            Err(HandshakeError::BadDomain)
        }
    }
}

/// The message that carries `username` and `password`.
pub open spec fn userpass_message(username: Seq<char>, password: Seq<char>) -> Seq<u8> {
    let uname = encode_utf8(username);
    let passwd = encode_utf8(password);
    seq![USERPASS_VERSION, uname.len() as u8] + uname + seq![passwd.len() as u8] + passwd
}

/// Parse an RFC 1929 username/password request
/// (VER ULEN UNAME PLEN PASSWD), returning `(username, password)`.
pub fn parse_userpass(buf: &[u8]) -> (result: Result<(String, String), HandshakeError>)
    ensures
        match result {
            Ok((username, password)) => userpass(buf@) == Ok::<
                (Seq<char>, Seq<char>),
                HandshakeError,
            >((username@, password@)),
            Err(error) => userpass(buf@) == Err::<(Seq<char>, Seq<char>), HandshakeError>(error),
        },
{
    if buf.len() < 1 {
        return Err(HandshakeError::Truncated);
    }
    let ver: u8 = buf[0];
    if ver != USERPASS_VERSION {
        return Err(HandshakeError::BadVersion(ver));
    }
    if buf.len() < 2 {
        return Err(HandshakeError::Truncated);
    }
    let ulen: usize = buf[1] as usize;
    let plen_idx: usize = 2 + ulen;
    if buf.len() < plen_idx + 1 {
        return Err(HandshakeError::Truncated);
    }
    let plen: usize = buf[plen_idx] as usize;
    if buf.len() < plen_idx + 1 + plen {
        return Err(HandshakeError::Truncated);
    }
    let username: String = match utf8_string(vstd::slice::slice_subrange(buf, 2, plen_idx)) {
        Some(username) => username,
        None => {
            return Err(HandshakeError::BadDomain);
        },
    };
    let password: String = match utf8_string(
        vstd::slice::slice_subrange(buf, plen_idx + 1, plen_idx + 1 + plen),
    ) {
        Some(password) => password,
        None => {
            return Err(HandshakeError::BadDomain);
        },
    };
    Ok((username, password))
}

/// The RFC 1929 reply to a login that was accepted or refused.
pub open spec fn userpass_reply_bytes(ok: bool) -> Seq<u8> {
    seq![USERPASS_VERSION, if ok { 0x00u8 } else { 0x01u8 }]
}

/// Build an RFC 1929 auth reply: `[0x01, 0x00]` on success, `[0x01, 0x01]`
/// on failure.
pub fn userpass_reply(ok: bool) -> (reply: [u8; 2])
    ensures
        reply@ == userpass_reply_bytes(ok),
{
    let status: u8 = if ok {
        0x00
    } else {
        0x01
    };
    let reply: [u8; 2] = [USERPASS_VERSION, status];
    assert(reply@ =~= userpass_reply_bytes(ok));
    reply
}

/// Parsing a greeting gives back the methods that it was made of and ignores
/// what follows.
pub proof fn parse_inverts_greeting(methods: Seq<u8>, tail: Seq<u8>)
    requires
        methods.len() <= 255,
    ensures
        greeting(greeting_message(methods) + tail) == Ok::<Seq<u8>, HandshakeError>(methods),
{
    let buf = greeting_message(methods) + tail;
    assert(buf[1] == methods.len());
    assert(buf.subrange(2, 2 + buf[1]) =~= methods);
}

/// A parsed greeting is the message made of the methods it offers.
pub proof fn greeting_inverts_parse(buf: Seq<u8>, methods: Seq<u8>)
    requires
        greeting(buf) == Ok::<Seq<u8>, HandshakeError>(methods),
    ensures
        2 + methods.len() <= buf.len(),
        methods.len() <= 255,
        greeting_message(methods) == buf.take((2 + methods.len()) as int),
{
    assert(greeting_message(methods) =~= buf.take((2 + methods.len()) as int));
}

/// Once the bytes at hand settle what a greeting offers, or that it is none,
/// further bytes change nothing; and until then fewer than [`MAX_GREETING`]
/// bytes are at hand.
pub proof fn greeting_is_stable(buf: Seq<u8>, more: Seq<u8>)
    ensures
        greeting(buf) == Err::<Seq<u8>, HandshakeError>(HandshakeError::Truncated) ==> buf.len()
            < MAX_GREETING,
        greeting(buf) != Err::<Seq<u8>, HandshakeError>(HandshakeError::Truncated) ==> greeting(
            buf + more,
        ) == greeting(buf),
{
    if greeting(buf) is Ok {
        assert((buf + more).subrange(2, 2 + buf[1]) =~= buf.subrange(2, 2 + buf[1]));
    }
}

/// Parsing a login gives back the username and password that it was made of
/// and ignores what follows.
pub proof fn parse_inverts_userpass(username: Seq<char>, password: Seq<char>, tail: Seq<u8>)
    requires
        encode_utf8(username).len() <= 255,
        encode_utf8(password).len() <= 255,
    ensures
        userpass(userpass_message(username, password) + tail) == Ok::<
            (Seq<char>, Seq<char>),
            HandshakeError,
        >((username, password)),
{
    let uname = encode_utf8(username);
    let passwd = encode_utf8(password);
    let buf = userpass_message(username, password) + tail;
    encode_utf8_valid_utf8(username);
    encode_utf8_decode_utf8(username);
    encode_utf8_valid_utf8(password);
    encode_utf8_decode_utf8(password);
    assert(buf[1] == uname.len());
    assert(buf[2 + buf[1]] == passwd.len());
    assert(buf.subrange(2, 2 + buf[1]) =~= uname);
    assert(buf.subrange(3 + buf[1], 3 + buf[1] + buf[2 + buf[1]]) =~= passwd);
}

/// A parsed login is the message made of the username and password it carries.
pub proof fn userpass_inverts_parse(buf: Seq<u8>, username: Seq<char>, password: Seq<char>)
    requires
        userpass(buf) == Ok::<(Seq<char>, Seq<char>), HandshakeError>((username, password)),
    ensures
        3 + encode_utf8(username).len() + encode_utf8(password).len() <= buf.len(),
        encode_utf8(username).len() <= 255,
        encode_utf8(password).len() <= 255,
        userpass_message(username, password) == buf.take(
            (3 + encode_utf8(username).len() + encode_utf8(password).len()) as int,
        ),
{
    let uname = buf.subrange(2, 2 + buf[1]);
    let passwd = buf.subrange(3 + buf[1], 3 + buf[1] + buf[2 + buf[1]]);
    decode_utf8_encode_utf8(uname);
    decode_utf8_encode_utf8(passwd);
    assert(userpass_message(username, password) =~= buf.take(
        (3 + uname.len() + passwd.len()) as int,
    ));
}

/// Once the bytes at hand settle what a login carries, or that it is none,
/// further bytes change nothing; and until then fewer than [`MAX_USERPASS`]
/// bytes are at hand.
pub proof fn userpass_is_stable(buf: Seq<u8>, more: Seq<u8>)
    ensures
        userpass(buf) == Err::<(Seq<char>, Seq<char>), HandshakeError>(HandshakeError::Truncated)
            ==> buf.len() < MAX_USERPASS,
        userpass(buf) != Err::<(Seq<char>, Seq<char>), HandshakeError>(HandshakeError::Truncated)
            ==> userpass(buf + more) == userpass(buf),
{
    if userpass(buf) != Err::<(Seq<char>, Seq<char>), HandshakeError>(HandshakeError::Truncated)
        && buf[0] == USERPASS_VERSION {
        let whole = buf + more;
        let ulen = buf[1] as int;
        let plen = buf[2 + ulen] as int;
        assert(whole[1] == ulen && whole[2 + ulen] == plen);
        assert(whole.subrange(2, 2 + ulen) =~= buf.subrange(2, 2 + ulen));
        assert(whole.subrange(3 + ulen, 3 + ulen + plen) =~= buf.subrange(3 + ulen, 3 + ulen + plen));
    }
}

/// A greeting is version 5, the number of methods, and that many methods; one
/// that is refused has another version, and one that is unfinished lacks bytes.
pub proof fn greetings_are_spelled(buf: Seq<u8>)
    ensures
        match greeting(buf) {
            Ok(methods) => {
                &&& buf.len() >= 2 + methods.len()
                &&& buf[0] == 5
                &&& buf[1] == methods.len()
                &&& forall|i: int| 0 <= i < methods.len() ==> #[trigger] methods[i] == buf[i + 2]
            },
            Err(HandshakeError::BadVersion(version)) => buf.len() > 0 && buf[0] == version
                && version != 5,
            Err(HandshakeError::Truncated) => buf.len() == 0 || (buf[0] == 5 && (buf.len() == 1
                || buf.len() < 2 + buf[1])),
            Err(HandshakeError::BadDomain) => false,
        },
{
}

/// A login is version 1 and two strings of UTF-8, each behind its length; one
/// that is refused has another version or other bytes, and one that is unfinished
/// lacks bytes.
pub proof fn logins_are_spelled(buf: Seq<u8>)
    ensures
        match userpass(buf) {
            Ok((username, password)) => {
                let u = encode_utf8(username);
                let p = encode_utf8(password);
                &&& buf.len() >= 3 + u.len() + p.len()
                &&& buf[0] == 1
                &&& buf[1] == u.len()
                &&& buf.subrange(2, 2 + u.len() as int) == u
                &&& buf[2 + u.len() as int] == p.len()
                &&& buf.subrange(3 + u.len() as int, 3 + u.len() as int + p.len() as int) == p
            },
            Err(HandshakeError::BadVersion(version)) => buf.len() > 0 && buf[0] == version
                && version != 1,
            Err(HandshakeError::Truncated) => buf.len() == 0 || (buf[0] == 1 && (buf.len() == 1
                || buf.len() < 3 + buf[1] || buf.len() < 3 + buf[1] + buf[2 + buf[1]])),
            Err(HandshakeError::BadDomain) => buf.len() >= 3 && buf[0] == 1 && !(valid_utf8(
                buf.subrange(2, 2 + buf[1]),
            ) && valid_utf8(buf.subrange(3 + buf[1], 3 + buf[1] + buf[2 + buf[1]]))),
        },
{
    if let Ok((username, password)) = userpass(buf) {
        decode_utf8_encode_utf8(buf.subrange(2, 2 + buf[1]));
        decode_utf8_encode_utf8(buf.subrange(3 + buf[1], 3 + buf[1] + buf[2 + buf[1]]));
    }
}

/// The method that is asked for, no authentication (0) or a login (2), is chosen
/// if and only if it was offered; 0xff says that it was not. A login is answered
/// by version 1 and 0 where it was accepted.
pub proof fn only_the_wanted_method_is_chosen(offered: Seq<u8>, i: int)
    ensures
        0 <= i < offered.len() && offered[i] == 0 ==> selected_method(offered, false) == 0,
        0 <= i < offered.len() && offered[i] == 2 ==> selected_method(offered, true) == 2,
        selected_method(offered, false) == 0 || selected_method(offered, false) == 0xff,
        selected_method(offered, true) == 2 || selected_method(offered, true) == 0xff,
        selected_method(offered, false) == 0 ==> offered.contains(0),
        selected_method(offered, true) == 2 ==> offered.contains(2),
        userpass_reply_bytes(true) == seq![1u8, 0],
        userpass_reply_bytes(false) == seq![1u8, 1],
{
}

} // verus!
