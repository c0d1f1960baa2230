use std::io;

use next_socks5::error::{IoErrorKind, Socks5Error};

#[test]
fn reply_codes() {
    assert_eq!(Socks5Error::General.reply_code(), 0x01);
    assert_eq!(Socks5Error::NotAllowed.reply_code(), 0x02);
    assert_eq!(Socks5Error::NetworkUnreachable.reply_code(), 0x03);
    assert_eq!(Socks5Error::HostUnreachable.reply_code(), 0x04);
    assert_eq!(Socks5Error::ConnectionRefused.reply_code(), 0x05);
    assert_eq!(Socks5Error::TtlExpired.reply_code(), 0x06);
    assert_eq!(Socks5Error::CommandNotSupported.reply_code(), 0x07);
    assert_eq!(Socks5Error::AddressNotSupported.reply_code(), 0x08);
}

#[test]
fn from_io_connection_refused() {
    let e = io::Error::from(io::ErrorKind::ConnectionRefused);
    assert_eq!(Socks5Error::from_io(&e).reply_code(), 0x05);
}

#[test]
fn from_io_timed_out() {
    let e = io::Error::from(io::ErrorKind::TimedOut);
    assert_eq!(Socks5Error::from_io(&e).reply_code(), 0x06);
}

#[test]
fn from_io_network_unreachable() {
    let e = io::Error::from(io::ErrorKind::NetworkUnreachable);
    assert_eq!(Socks5Error::from_io(&e).reply_code(), 0x03);
}

#[test]
fn from_io_host_unreachable() {
    let e = io::Error::from(io::ErrorKind::HostUnreachable);
    assert_eq!(Socks5Error::from_io(&e).reply_code(), 0x04);
}

#[test]
fn from_io_other_kinds() {
    let e = io::Error::from(io::ErrorKind::AddrNotAvailable);
    assert_eq!(Socks5Error::from_io(&e), Socks5Error::HostUnreachable);
    let e = io::Error::from(io::ErrorKind::BrokenPipe);
    assert_eq!(Socks5Error::from_io(&e), Socks5Error::General);
}

#[test]
fn io_kinds_are_told_apart() {
    let pairs = [
        (io::ErrorKind::NotFound, IoErrorKind::NotFound),
        (io::ErrorKind::PermissionDenied, IoErrorKind::PermissionDenied),
        (io::ErrorKind::ConnectionRefused, IoErrorKind::ConnectionRefused),
        (io::ErrorKind::HostUnreachable, IoErrorKind::HostUnreachable),
        (io::ErrorKind::NetworkUnreachable, IoErrorKind::NetworkUnreachable),
        (io::ErrorKind::AddrInUse, IoErrorKind::AddrInUse),
        (io::ErrorKind::AddrNotAvailable, IoErrorKind::AddrNotAvailable),
        (io::ErrorKind::AlreadyExists, IoErrorKind::AlreadyExists),
        (io::ErrorKind::WouldBlock, IoErrorKind::WouldBlock),
        (io::ErrorKind::TimedOut, IoErrorKind::TimedOut),
        (io::ErrorKind::UnexpectedEof, IoErrorKind::Other),
    ];
    for (kind, expected) in pairs {
        assert_eq!(IoErrorKind::of(&io::Error::from(kind)), expected);
    }
}

#[test]
fn errors_have_words() {
    assert_eq!(Socks5Error::General.message(), "general SOCKS server failure");
    assert_eq!(Socks5Error::TtlExpired.message(), "TTL expired");
    assert_eq!(
        Socks5Error::AddressNotSupported.message(),
        "address type not supported"
    );
}
