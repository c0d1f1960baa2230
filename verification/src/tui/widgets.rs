//! The log ring and the texts of the dashboard's panels.

use std::collections::VecDeque;

use vstd::prelude::*;
use vstd::std_specs::iter::IteratorSpec;

use crate::error::Socks5Error;
use crate::metrics::{ConnInfo, Snapshot, SnapshotView};
use crate::ring::pushed;
use crate::text::{decimal, push_decimal, push_socket, socket_text};

verus! {

/// Fixed-capacity log ring buffer.
///
/// `push` appends a line; when already at capacity the oldest entry is dropped.
/// [`lines`](LogRing::lines) yields the current entries oldest -> newest.
pub struct LogRing {
    buf: VecDeque<String>,
    cap: usize,
}

impl View for LogRing {
    type V = Seq<String>;

    closed spec fn view(&self) -> Seq<String> {
        self.buf@
    }
}

impl LogRing {
    /// How many lines the ring has room for.
    pub closed spec fn capacity(self) -> nat {
        self.cap as nat
    }

    /// Whether the ring has room for a line and holds no more than it has room
    /// for.
    pub open spec fn wf(self) -> bool {
        1 <= self.capacity() && self@.len() <= self.capacity()
    }

    /// Create a ring buffer holding at most `cap` lines. A `cap` of zero is
    /// clamped to 1 so the buffer can always hold the most recent line.
    pub fn new(cap: usize) -> (ring: LogRing)
        ensures
            ring@ == Seq::<String>::empty(),
            ring.capacity() == (if cap == 0 {
                1
            } else {
                cap as nat
            }),
            ring.wf(),
    {
        LogRing {
            buf: VecDeque::with_capacity(cap),
            cap: if cap == 0 {
                1
            } else {
                cap
            },
        }
    }

    /// Append a line, dropping the oldest entry when at capacity.
    pub fn push(&mut self, line: String)
        requires
            old(self).wf(),
        ensures
            final(self)@ == pushed(old(self)@, old(self).capacity(), line),
            final(self).capacity() == old(self).capacity(),
            final(self).wf(),
    {
        if self.buf.len() == self.cap {
            let _ = self.buf.pop_front();
            assert(self.buf@ =~= old(self)@.drop_first());
        }
        self.buf.push_back(line);
    }

    /// Number of lines currently stored.
    pub fn len(&self) -> (len: usize)
        ensures
            len == self@.len(),
    {
        self.buf.len()
    }

    /// Whether the buffer holds no lines.
    pub fn is_empty(&self) -> (empty: bool)
        ensures
            empty == (self@.len() == 0),
    {
        self.buf.len() == 0
    }

    /// Iterate the current lines oldest -> newest.
    pub fn lines(&self) -> (lines: std::collections::vec_deque::Iter<'_, String>)
        ensures
            IteratorSpec::remaining(&lines) == self@.as_ref(),
    {
        self.buf.iter()
    }
}

/// The unit that a byte count is shown in.
#[derive(Debug, Clone, Copy, PartialEq, Eq, Structural)]
pub enum ByteUnit {
    B,
    Kb,
    Mb,
    Gb,
}

impl ByteUnit {
    /// How many bytes the unit stands for.
    pub open spec fn size(self) -> nat {
        match self {
            ByteUnit::B => 1,
            ByteUnit::Kb => 0x400,
            ByteUnit::Mb => 0x10_0000,
            ByteUnit::Gb => 0x4000_0000,
        }
    }
}

/// The unit to show `n` bytes in: the largest that `n` reaches.
pub fn byte_unit(n: u64) -> (unit: ByteUnit)
    ensures
        n > 0 ==> unit.size() <= n,
        forall|other: ByteUnit| #[trigger] other.size() <= n ==> other.size() <= unit.size(),
        n == 0 ==> unit == ByteUnit::B,
{
    if n >= 0x4000_0000 {
        ByteUnit::Gb
    } else if n >= 0x10_0000 {
        ByteUnit::Mb
    } else if n >= 0x400 {
        ByteUnit::Kb
    } else {
        ByteUnit::B
    }
}

/// The title bar.
pub open spec fn spec_title(listen_addr: Option<Seq<char>>) -> Seq<char> {
    match listen_addr {
        Some(addr) => " next-socks5  -  listening on "@ + addr + "  (press q to quit) "@,
        None => " next-socks5  (press q to quit) "@,
    }
}

/// The title bar of a dashboard for a server on `listen_addr`.
pub fn title(listen_addr: &Option<String>) -> (text: String)
    ensures
        text@ == spec_title(
            match *listen_addr {
                Some(addr) => Some(addr@),
                None => None,
            },
        ),
{
    match listen_addr {
        Some(addr) => {
            let mut text: String = " next-socks5  -  listening on ".to_owned();
            text.append(addr.as_str());
            text.append("  (press q to quit) ");
            text
        },
        None => " next-socks5  (press q to quit) ".to_owned(),
    }
}

/// A row of the connections table, as far as it is not byte counts.
#[derive(Debug, PartialEq, Eq)]
pub struct ConnRow {
    pub id: String,
    pub src: String,
    pub target: String,
    pub kind: &'static str,
}

/// The row of a connection.
pub fn connection_row(info: &ConnInfo) -> (row: ConnRow)
    ensures
        row.id@ == decimal(info.id as nat),
        row.src@ == socket_text(info.src),
        row.target@ == info.target@,
        row.kind@ == info.kind.spec_label(),
{
    let mut id: String = String::new();
    push_decimal(&mut id, info.id as u128);
    let mut src: String = String::new();
    push_socket(&mut src, info.src);
    assert(id@ =~= decimal(info.id as nat));
    assert(src@ =~= socket_text(info.src));
    ConnRow { id, src, target: info.target.clone(), kind: info.kind.label() }
}

/// The title of the table of `n` connections.
pub fn connections_title(n: usize) -> (text: String)
    ensures
        text@ == "Active connections ("@ + decimal(n as nat) + ")"@,
{
    let mut text: String = "Active connections (".to_owned();
    push_decimal(&mut text, n as u128);
    text.append(")");
    text
}

/// The short name of RFC 1928 reply code `code`, from 0x01 to 0x08.
pub open spec fn code_name(code: nat) -> Seq<char> {
    if code == 1 {
        "general"@
    } else if code == 2 {
        "ruleset"@
    } else if code == 3 {
        "netunreach"@
    } else if code == 4 {
        "hostunreach"@
    } else if code == 5 {
        "connrefused"@
    } else if code == 6 {
        "ttl"@
    } else if code == 7 {
        "badcmd"@
    } else {
        "badatyp"@
    }
}

/// The short name of RFC 1928 reply code `code`, from 0x01 to 0x08.
fn code_word(code: usize) -> (name: &'static str)
    ensures
        name@ == code_name(code as nat),
{
    if code == 1 {
        "general"
    } else if code == 2 {
        "ruleset"
    } else if code == 3 {
        "netunreach"
    } else if code == 4 {
        "hostunreach"
    } else if code == 5 {
        "connrefused"
    } else if code == 6 {
        "ttl"
    } else if code == 7 {
        "badcmd"
    } else {
        "badatyp"
    }
}

/// How often reply code `code` was sent.
pub open spec fn code_text(snapshot: SnapshotView, code: nat) -> Seq<char> {
    "0x0"@ + decimal(code) + " "@ + code_name(code) + "="@ + decimal(
        snapshot.error_codes[code as int] as nat,
    )
}

/// How often each of the `n` reply codes from `first` on was sent.
pub open spec fn codes_text(snapshot: SnapshotView, first: nat, n: nat) -> Seq<char>
    decreases n,
{
    if n == 0 {
        Seq::empty()
    } else if n == 1 {
        code_text(snapshot, first)
    } else {
        codes_text(snapshot, first, (n - 1) as nat) + "   "@ + code_text(
            snapshot,
            (first + n - 1) as nat,
        )
    }
}

/// The counters of connections and requests.
pub open spec fn totals_text(snapshot: SnapshotView) -> Seq<char> {
    "conns total="@ + decimal(snapshot.total_conns as nat) + "  active="@ + decimal(
        snapshot.active_conns as nat,
    ) + "  ok="@ + decimal(snapshot.successes as nat) + "  fail="@ + decimal(
        snapshot.failures as nat,
    )
}

/// Append how often each of the four reply codes from `first` on was sent.
fn push_codes(out: &mut String, snapshot: &Snapshot, first: usize)
    requires
        1 <= first <= 5,
    ensures
        final(out)@ == old(out)@ + codes_text(snapshot@, first as nat, 4),
{
    let mut n: usize = 0;
    assert(out@ =~= old(out)@ + codes_text(snapshot@, first as nat, 0));
    while n < 4
        invariant
            n <= 4,
            1 <= first <= 5,
            out@ == old(out)@ + codes_text(snapshot@, first as nat, n as nat),
        decreases 4 - n,
    {
        if n > 0 {
            out.append("   ");
        }
        let code: usize = first + n;
        out.append("0x0");
        push_decimal(out, code as u128);
        out.append(" ");
        out.append(code_word(code));
        out.append("=");
        push_decimal(out, snapshot.error_codes[code] as u128);
        n += 1;
        assert(out@ =~= old(out)@ + codes_text(snapshot@, first as nat, n as nat));
    }
}

/// The three lines of the stats panel: the totals, then the RFC 1928 reply codes
/// 0x01..=0x08, four to a line.
pub fn stats_lines(snapshot: &Snapshot) -> (lines: (String, String, String))
    ensures
        lines.0@ == totals_text(snapshot@),
        lines.1@ == codes_text(snapshot@, 1, 4),
        lines.2@ == codes_text(snapshot@, 5, 4),
{
    let mut totals: String = "conns total=".to_owned();
    push_decimal(&mut totals, snapshot.total_conns as u128);
    totals.append("  active=");
    push_decimal(&mut totals, snapshot.active_conns as u128);
    totals.append("  ok=");
    push_decimal(&mut totals, snapshot.successes as u128);
    totals.append("  fail=");
    push_decimal(&mut totals, snapshot.failures as u128);
    let mut low: String = String::new();
    push_codes(&mut low, snapshot, 1);
    let mut high: String = String::new();
    push_codes(&mut high, snapshot, 5);
    assert(low@ =~= codes_text(snapshot@, 1, 4));
    assert(high@ =~= codes_text(snapshot@, 5, 4));
    (totals, low, high)
}

/// Where the shown part of `len` log lines starts in a panel of `height` rows,
/// two of which are borders: the most recent lines that fit, and always one.
pub fn log_start(len: usize, height: u16) -> (start: usize)
    ensures
        ({
            let room = if height <= 3 {
                1
            } else {
                height - 2
            };
            start == (if len <= room {
                0
            } else {
                len - room
            })
        }),
{
    let room: usize = if height <= 3 {
        1
    } else {
        (height - 2) as usize
    };
    if len <= room {
        0
    } else {
        len - room
    }
}

/// Each unit of bytes is 1024 of the one below it.
pub proof fn units_go_by_1024()
    ensures
        ByteUnit::B.size() == 1,
        ByteUnit::Kb.size() == 1024 * ByteUnit::B.size(),
        ByteUnit::Mb.size() == 1024 * ByteUnit::Kb.size(),
        ByteUnit::Gb.size() == 1024 * ByteUnit::Mb.size(),
{
}

/// Each failure is counted under its reply code and its own name.
pub proof fn failures_are_shown_by_name(snapshot: SnapshotView, error: Socks5Error)
    ensures
        code_text(snapshot, error.code() as nat) == "0x0"@ + decimal(error.code() as nat) + " "@
            + match error {
            Socks5Error::General => "general"@,
            Socks5Error::NotAllowed => "ruleset"@,
            Socks5Error::NetworkUnreachable => "netunreach"@,
            Socks5Error::HostUnreachable => "hostunreach"@,
            Socks5Error::ConnectionRefused => "connrefused"@,
            Socks5Error::TtlExpired => "ttl"@,
            Socks5Error::CommandNotSupported => "badcmd"@,
            Socks5Error::AddressNotSupported => "badatyp"@,
        } + "="@ + decimal(snapshot.error_codes[error.code() as int] as nat),
{
}

/// Four counts stand on a line, three spaces apart, in order of their codes.
pub proof fn counts_stand_in_order(snapshot: SnapshotView, first: nat)
    ensures
        codes_text(snapshot, first, 4) == code_text(snapshot, first) + "   "@ + code_text(
            snapshot,
            first + 1,
        ) + "   "@ + code_text(snapshot, first + 2) + "   "@ + code_text(snapshot, first + 3),
{
    reveal_with_fuel(codes_text, 5);
    assert(codes_text(snapshot, first, 4) =~= code_text(snapshot, first) + "   "@ + code_text(
        snapshot,
        first + 1,
    ) + "   "@ + code_text(snapshot, first + 2) + "   "@ + code_text(snapshot, first + 3));
}

/// The totals are the counters of all connections, of the active ones, of the
/// requests that were served, and of those that failed; the title names where the
/// server listens, where that is known.
pub proof fn panels_show_the_counters(snapshot: SnapshotView, addr: Seq<char>)
    ensures
        totals_text(snapshot) == "conns total="@ + decimal(snapshot.total_conns as nat)
            + "  active="@ + decimal(snapshot.active_conns as nat) + "  ok="@ + decimal(
            snapshot.successes as nat,
        ) + "  fail="@ + decimal(snapshot.failures as nat),
        spec_title(Some(addr)) == " next-socks5  -  listening on "@ + addr
            + "  (press q to quit) "@,
        spec_title(None) == " next-socks5  (press q to quit) "@,
{
}

} // verus!
