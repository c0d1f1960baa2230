//! SOCKS5 error types and their mapping to RFC 1928 reply codes.

use vstd::prelude::*;

verus! {

/// A SOCKS5 failure condition, each corresponding to an RFC 1928 reply code.
#[derive(Debug, Clone, Copy, PartialEq, Eq, Structural)]
pub enum Socks5Error {
    General,
    NotAllowed,
    NetworkUnreachable,
    HostUnreachable,
    ConnectionRefused,
    TtlExpired,
    CommandNotSupported,
    AddressNotSupported,
}

/// The IO failures that the server tells apart.
#[derive(Debug, Clone, Copy, PartialEq, Eq, Structural)]
pub enum IoErrorKind {
    NotFound,
    PermissionDenied,
    ConnectionRefused,
    HostUnreachable,
    NetworkUnreachable,
    AddrInUse,
    AddrNotAvailable,
    AlreadyExists,
    WouldBlock,
    TimedOut,
    Other,
}

/// A failed IO operation.
#[derive(Debug, PartialEq, Eq)]
pub struct IoFailure {
    pub kind: IoErrorKind,
    /// The error in words.
    pub message: String,
}

/// What an [`IoFailure`] stands for.
pub struct IoFailureView {
    pub kind: IoErrorKind,
    pub message: Seq<char>,
}

impl View for IoFailure {
    type V = IoFailureView;

    open spec fn view(&self) -> IoFailureView {
        IoFailureView { kind: self.kind, message: self.message@ }
    }
}

impl Clone for IoFailure {
    fn clone(&self) -> (copy: IoFailure)
        ensures
            copy == *self,
    {
        IoFailure { kind: self.kind, message: self.message.clone() }
    }
}

/// An error of the operating system or of std's IO functions.
#[verifier::external_type_specification]
#[verifier::external_body]
pub struct ExIoError(std::io::Error);

/// What `std::io::Error::kind` says of an error, as far as the server tells
/// kinds apart.
pub uninterp spec fn io_error_kind(error: std::io::Error) -> IoErrorKind;

/// The kind of `error`, through `std::io::Error::kind`. Kinds that the server
/// does not tell apart become [`IoErrorKind::Other`].
///
/// Taken on trust: the kind is a property of the error alone.
#[verifier::external_body]
fn kind_of(error: &std::io::Error) -> (kind: IoErrorKind)
    ensures
        kind == io_error_kind(*error),
{
    match error.kind() {
        std::io::ErrorKind::NotFound => IoErrorKind::NotFound,
        std::io::ErrorKind::PermissionDenied => IoErrorKind::PermissionDenied,
        std::io::ErrorKind::ConnectionRefused => IoErrorKind::ConnectionRefused,
        std::io::ErrorKind::HostUnreachable => IoErrorKind::HostUnreachable,
        std::io::ErrorKind::NetworkUnreachable => IoErrorKind::NetworkUnreachable,
        std::io::ErrorKind::AddrInUse => IoErrorKind::AddrInUse,
        std::io::ErrorKind::AddrNotAvailable => IoErrorKind::AddrNotAvailable,
        std::io::ErrorKind::AlreadyExists => IoErrorKind::AlreadyExists,
        std::io::ErrorKind::WouldBlock => IoErrorKind::WouldBlock,
        std::io::ErrorKind::TimedOut => IoErrorKind::TimedOut,
        _ => IoErrorKind::Other,
    }
}

impl IoErrorKind {
    /// The kind of `error`.
    pub fn of(error: &std::io::Error) -> (kind: IoErrorKind)
        ensures
            kind == io_error_kind(*error),
    {
        kind_of(error)
    }
}

impl Socks5Error {
    /// The RFC 1928 reply code (REP field) of this error.
    pub open spec fn code(self) -> u8 {
        match self {
            Socks5Error::General => 0x01,
            Socks5Error::NotAllowed => 0x02,
            Socks5Error::NetworkUnreachable => 0x03,
            Socks5Error::HostUnreachable => 0x04,
            Socks5Error::ConnectionRefused => 0x05,
            Socks5Error::TtlExpired => 0x06,
            Socks5Error::CommandNotSupported => 0x07,
            Socks5Error::AddressNotSupported => 0x08,
        }
    }

    /// Return the RFC 1928 reply code (REP field) for this error.
    pub fn reply_code(&self) -> (code: u8)
        ensures
            code == self.code(),
    {
        match self {
            Socks5Error::General => 0x01,
            Socks5Error::NotAllowed => 0x02,
            Socks5Error::NetworkUnreachable => 0x03,
            Socks5Error::HostUnreachable => 0x04,
            Socks5Error::ConnectionRefused => 0x05,
            Socks5Error::TtlExpired => 0x06,
            Socks5Error::CommandNotSupported => 0x07,
            Socks5Error::AddressNotSupported => 0x08,
        }
    }

    /// The SOCKS5 error closest to an IO failure of `kind`.
    pub open spec fn closest(kind: IoErrorKind) -> Socks5Error {
        match kind {
            IoErrorKind::NetworkUnreachable => Socks5Error::NetworkUnreachable,
            IoErrorKind::HostUnreachable => Socks5Error::HostUnreachable,
            IoErrorKind::ConnectionRefused => Socks5Error::ConnectionRefused,
            IoErrorKind::TimedOut => Socks5Error::TtlExpired,
            IoErrorKind::AddrNotAvailable => Socks5Error::HostUnreachable,
            _ => Socks5Error::General,
        }
    }

    /// Map the kind of an IO failure to the closest SOCKS5 error.
    ///
    /// Kinds without a counterpart map to [`Socks5Error::General`].
    pub fn from_kind(kind: IoErrorKind) -> (error: Socks5Error)
        ensures
            error == Socks5Error::closest(kind),
    {
        match kind {
            IoErrorKind::NetworkUnreachable => Socks5Error::NetworkUnreachable,
            IoErrorKind::HostUnreachable => Socks5Error::HostUnreachable,
            IoErrorKind::ConnectionRefused => Socks5Error::ConnectionRefused,
            IoErrorKind::TimedOut => Socks5Error::TtlExpired,
            IoErrorKind::AddrNotAvailable => Socks5Error::HostUnreachable,
            _ => Socks5Error::General,
        }
    }

    /// Map a [`std::io::Error`] to the closest SOCKS5 error.
    pub fn from_io(e: &std::io::Error) -> (error: Socks5Error)
        ensures
            error == Socks5Error::closest(io_error_kind(*e)),
    {
        Socks5Error::from_kind(kind_of(e))
    }

    /// The words for this error in a log.
    pub open spec fn spec_message(self) -> Seq<char> {
        match self {
            Socks5Error::General => "general SOCKS server failure"@,
            Socks5Error::NotAllowed => "connection not allowed by ruleset"@,
            Socks5Error::NetworkUnreachable => "network unreachable"@,
            Socks5Error::HostUnreachable => "host unreachable"@,
            Socks5Error::ConnectionRefused => "connection refused"@,
            Socks5Error::TtlExpired => "TTL expired"@,
            Socks5Error::CommandNotSupported => "command not supported"@,
            Socks5Error::AddressNotSupported => "address type not supported"@,
        }
    }

    /// The words for this error in a log.
    pub fn message(&self) -> (text: &'static str)
        ensures
            text@ == self.spec_message(),
    {
        match self {
            Socks5Error::General => "general SOCKS server failure",
            Socks5Error::NotAllowed => "connection not allowed by ruleset",
            Socks5Error::NetworkUnreachable => "network unreachable",
            Socks5Error::HostUnreachable => "host unreachable",
            Socks5Error::ConnectionRefused => "connection refused",
            Socks5Error::TtlExpired => "TTL expired",
            Socks5Error::CommandNotSupported => "command not supported",
            Socks5Error::AddressNotSupported => "address type not supported",
        }
    }
}

/// Every failure has a reply code of its own, from 0x01 to 0x08.
pub proof fn reply_codes_tell_errors_apart(a: Socks5Error, b: Socks5Error)
    ensures
        1 <= a.code() <= 8,
        a.code() == b.code() <==> a == b,
{
}

/// The failures of a dial that have a reply code of their own are told by it, an
/// address that cannot be used as an unreachable host, and all others as a general
/// failure.
pub proof fn io_failures_are_told_by_code(kind: IoErrorKind)
    ensures
        Socks5Error::closest(kind).code() == (match kind {
            IoErrorKind::NetworkUnreachable => 3u8,
            IoErrorKind::HostUnreachable | IoErrorKind::AddrNotAvailable => 4,
            IoErrorKind::ConnectionRefused => 5,
            IoErrorKind::TimedOut => 6,
            _ => 1,
        }),
{
}

/// Every error is told in the words that go with its reply code.
pub proof fn words_go_with_the_code(error: Socks5Error)
    ensures
        error.spec_message() == seq![
            "general SOCKS server failure"@,
            "connection not allowed by ruleset"@,
            "network unreachable"@,
            "host unreachable"@,
            "connection refused"@,
            "TTL expired"@,
            "command not supported"@,
            "address type not supported"@,
        ][error.code() - 1],
{
}

} // verus!
