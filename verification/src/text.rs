//! Numbers, addresses and joined lists as text.

use vstd::arithmetic::div_mod::lemma_fundamental_div_mod_converse;
use vstd::prelude::*;

use crate::bytes::lemma_be_bytes_of_value;
use crate::net::{lemma_be_value_of_four, IpAddr, Ipv4Addr, Ipv6Addr, SocketAddr, SocketAddrV4, SocketAddrV6};

verus! {

/// The character of a hexadecimal digit, lower case.
pub open spec fn digit_char(digit: nat) -> char {
    if digit < 10 {
        ('0' as u32 + digit) as char
    } else {
        ('a' as u32 + (digit - 10)) as char
    }
}

/// `value` written in `radix`, without leading zeros.
pub open spec fn numeral(value: nat, radix: nat) -> Seq<char>
    decreases value,
{
    if radix < 2 || value < radix {
        seq![digit_char(value)]
    } else {
        proof {
            assert(value / radix < value) by (nonlinear_arith)
                requires
                    value >= radix,
                    radix >= 2,
            ;
        }
        numeral(value / radix, radix).push(digit_char(value % radix))
    }
}

/// `value` in decimal.
pub open spec fn decimal(value: nat) -> Seq<char> {
    numeral(value, 10)
}

/// The text of one digit.
fn digit_text(digit: u8) -> (text: &'static str)
    requires
        digit < 16,
    ensures
        text@ == seq![digit_char(digit as nat)],
{
    let text: &'static str = match digit {
        0 => "0",
        1 => "1",
        2 => "2",
        3 => "3",
        4 => "4",
        5 => "5",
        6 => "6",
        7 => "7",
        8 => "8",
        9 => "9",
        10 => "a",
        11 => "b",
        12 => "c",
        13 => "d",
        14 => "e",
        _ => "f",
    };
    proof {
        reveal_strlit("0");
        reveal_strlit("1");
        reveal_strlit("2");
        reveal_strlit("3");
        reveal_strlit("4");
        reveal_strlit("5");
        reveal_strlit("6");
        reveal_strlit("7");
        reveal_strlit("8");
        reveal_strlit("9");
        reveal_strlit("a");
        reveal_strlit("b");
        reveal_strlit("c");
        reveal_strlit("d");
        reveal_strlit("e");
        reveal_strlit("f");
        assert(text@ =~= seq![digit_char(digit as nat)]);
    }
    text
}

/// Append `value` in `radix` to `out`.
pub fn push_numeral(out: &mut String, value: u128, radix: u128)
    requires
        2 <= radix <= 16,
    ensures
        final(out)@ == old(out)@ + numeral(value as nat, radix as nat),
    decreases value,
{
    if value < radix {
        out.append(digit_text(value as u8));
    } else {
        assert(value / radix < value) by (nonlinear_arith)
            requires
                value >= radix,
                radix >= 2,
        ;
        push_numeral(out, value / radix, radix);
        assert(value % radix < radix) by (nonlinear_arith)
            requires
                radix >= 2,
        ;
        out.append(digit_text((value % radix) as u8));
    }
    proof {
        assert(out@ =~= old(out)@ + numeral(value as nat, radix as nat));
    }
}

/// Append `value` in decimal to `out`.
pub fn push_decimal(out: &mut String, value: u128)
    ensures
        final(out)@ == old(out)@ + decimal(value as nat),
{
    push_numeral(out, value, 10);
}

/// `byte` as two hexadecimal digits.
pub open spec fn hex_byte(byte: u8) -> Seq<char> {
    seq![digit_char(byte as nat / 16), digit_char(byte as nat % 16)]
}

/// Append `byte` as two hexadecimal digits to `out`.
pub fn push_hex_byte(out: &mut String, byte: u8)
    ensures
        final(out)@ == old(out)@ + hex_byte(byte),
{
    out.append(digit_text(byte / 16));
    out.append(digit_text(byte % 16));
    assert(out@ =~= old(out)@ + hex_byte(byte));
}

/// An IPv4 address in dotted decimal.
pub open spec fn ipv4_text(ip: Ipv4Addr) -> Seq<char> {
    let o = ip.spec_octets();
    decimal(o[0] as nat) + "."@ + decimal(o[1] as nat) + "."@ + decimal(o[2] as nat) + "."@
        + decimal(o[3] as nat)
}

/// How many groups from index `from` on are zero without a gap.
pub open spec fn zero_run(groups: Seq<nat>, from: int) -> nat
    decreases groups.len() - from,
{
    if 0 <= from < groups.len() && groups[from] == 0 {
        1 + zero_run(groups, from + 1)
    } else {
        0
    }
}

/// Whether no run of zero groups is longer than the one at `start`, and none
/// before it is as long.
pub open spec fn is_longest_run(groups: Seq<nat>, start: int) -> bool {
    &&& 0 <= start < groups.len()
    &&& forall|j: int|
        0 <= j < groups.len() ==> #[trigger] zero_run(groups, j) <= zero_run(groups, start)
    &&& forall|j: int| 0 <= j < start ==> #[trigger] zero_run(groups, j) < zero_run(groups, start)
}

/// Where the first of the longest runs of zero groups starts.
pub open spec fn longest_run(groups: Seq<nat>) -> int {
    choose|start: int| is_longest_run(groups, start)
}

/// `groups` in hexadecimal, with colons between them.
pub open spec fn joined_groups(groups: Seq<nat>) -> Seq<char>
    decreases groups.len(),
{
    if groups.len() == 0 {
        Seq::empty()
    } else if groups.len() == 1 {
        numeral(groups[0], 16)
    } else {
        joined_groups(groups.drop_last()) + ":"@ + numeral(groups.last(), 16)
    }
}

/// An IPv6 address: an IPv4-mapped one ends in dotted decimal; in any other, the
/// first of the longest runs of at least two zero groups is left out.
pub open spec fn ipv6_text(ip: Ipv6Addr) -> Seq<char> {
    match ip.spec_mapped() {
        Some(v4) => "::ffff:"@ + ipv4_text(v4),
        None => {
            let groups = ip.spec_segments();
            let start = longest_run(groups);
            let len = zero_run(groups, start);
            if len > 1 {
                joined_groups(groups.take(start)) + "::"@ + joined_groups(
                    groups.skip(start + len),
                )
            } else {
                joined_groups(groups)
            }
        },
    }
}

/// An IP address of either family.
pub open spec fn ip_text(ip: IpAddr) -> Seq<char> {
    match ip {
        IpAddr::V4(v4) => ipv4_text(v4),
        IpAddr::V6(v6) => ipv6_text(v6),
    }
}

/// A socket address: `a.b.c.d:port`, or `[ip]:port` with the scope, where there
/// is one, behind a percent sign.
pub open spec fn socket_text(addr: SocketAddr) -> Seq<char> {
    match addr {
        SocketAddr::V4(v4) => ipv4_text(v4.ip) + ":"@ + decimal(v4.port as nat),
        SocketAddr::V6(v6) => {
            let scope = if v6.scope_id == 0 {
                Seq::empty()
            } else {
                "%"@ + decimal(v6.scope_id as nat)
            };
            "["@ + ipv6_text(v6.ip) + scope + "]:"@ + decimal(v6.port as nat)
        },
    }
}

/// Append an IPv4 address in dotted decimal to `out`.
pub fn push_ipv4(out: &mut String, ip: Ipv4Addr)
    ensures
        final(out)@ == old(out)@ + ipv4_text(ip),
{
    let octets: Vec<u8> = ip.octets();
    push_decimal(out, octets[0] as u128);
    out.append(".");
    push_decimal(out, octets[1] as u128);
    out.append(".");
    push_decimal(out, octets[2] as u128);
    out.append(".");
    push_decimal(out, octets[3] as u128);
    assert(out@ =~= old(out)@ + ipv4_text(ip));
}

/// The numbers of `groups` from index `from` to before `to`.
pub open spec fn group_values(groups: Seq<u16>, from: int, to: int) -> Seq<nat> {
    groups.map_values(|g: u16| g as nat).subrange(from, to)
}

/// Append the groups from index `from` to before `to`, in hexadecimal with
/// colons between them.
fn push_groups(out: &mut String, groups: &Vec<u16>, from: usize, to: usize)
    requires
        from <= to <= groups.len(),
    ensures
        final(out)@ == old(out)@ + joined_groups(group_values(groups@, from as int, to as int)),
{
    let mut i: usize = from;
    assert(out@ =~= old(out)@ + joined_groups(group_values(groups@, from as int, from as int)));
    while i < to
        invariant
            from <= i <= to <= groups.len(),
            out@ == old(out)@ + joined_groups(group_values(groups@, from as int, i as int)),
        decreases to - i,
    {
        let ghost done = group_values(groups@, from as int, i as int);
        let ghost next = group_values(groups@, from as int, i + 1);
        proof {
            assert(next.drop_last() =~= done);
            assert(next.last() == groups@[i as int]);
        }
        if i > from {
            out.append(":");
        }
        push_numeral(out, groups[i] as u128, 16);
        proof {
            assert(out@ =~= old(out)@ + joined_groups(next));
        }
        i += 1;
    }
}

proof fn lemma_longest_run(groups: Seq<nat>, start: int)
    requires
        is_longest_run(groups, start),
    ensures
        longest_run(groups) == start,
{
    let other = longest_run(groups);
    assert(is_longest_run(groups, other));
    assert(zero_run(groups, other) == zero_run(groups, start));
}

proof fn lemma_zero_run_bound(groups: Seq<nat>, from: int)
    requires
        0 <= from <= groups.len(),
    ensures
        zero_run(groups, from) <= groups.len() - from,
    decreases groups.len() - from,
{
    if from < groups.len() && groups[from] == 0 {
        lemma_zero_run_bound(groups, from + 1);
    }
}

/// Find the first of the longest runs of zero groups: where it starts and how
/// long it is.
fn find_longest_run(groups: &Vec<u16>) -> (run: (usize, usize))
    requires
        0 < groups@.len() <= 8,
    ensures
        ({
            let values = groups@.map_values(|g: u16| g as nat);
            &&& run.0 == longest_run(values)
            &&& run.1 == zero_run(values, run.0 as int)
            &&& run.0 + run.1 <= groups@.len()
        }),
{
    let ghost values = groups@.map_values(|g: u16| g as nat);
    let mut start: usize = 0;
    let mut best: usize = 0;
    let mut run: usize = 0;
    let mut i: usize = groups.len();
    assert(zero_run(values, i as int) == 0);
    while i > 0
        invariant
            0 <= i <= groups@.len() <= 8,
            values == groups@.map_values(|g: u16| g as nat),
            run == zero_run(values, i as int),
            run <= groups@.len() - i,
            i < groups@.len() ==> {
                &&& i <= start < groups@.len()
                &&& best == zero_run(values, start as int)
                &&& forall|j: int|
                    i <= j < groups@.len() ==> #[trigger] zero_run(values, j) <= best
                &&& forall|j: int| i <= j < start ==> #[trigger] zero_run(values, j) < best
            },
            i == groups@.len() ==> best == 0,
        decreases i,
    {
        i -= 1;
        if groups[i] == 0 {
            run += 1;
        } else {
            run = 0;
        }
        assert(run == zero_run(values, i as int));
        if run >= best {
            start = i;
            best = run;
        }
    }
    proof {
        assert(is_longest_run(values, start as int));
        lemma_longest_run(values, start as int);
        lemma_zero_run_bound(values, start as int);
    }
    (start, best)
}

/// Append an IPv6 address to `out`.
pub fn push_ipv6(out: &mut String, ip: Ipv6Addr)
    ensures
        final(out)@ == old(out)@ + ipv6_text(ip),
{
    match ip.mapped() {
        Some(v4) => {
            out.append("::ffff:");
            push_ipv4(out, v4);
        },
        None => {
            let groups: Vec<u16> = ip.segments();
            let ghost values = ip.spec_segments();
            assert(values.len() == 8);
            let (start, len) = find_longest_run(&groups);
            if len > 1 {
                push_groups(out, &groups, 0, start);
                out.append("::");
                push_groups(out, &groups, start + len, 8);
                assert(group_values(groups@, 0, start as int) =~= values.take(start as int));
                assert(group_values(groups@, start + len, 8) =~= values.skip(start + len));
            } else {
                push_groups(out, &groups, 0, 8);
                assert(group_values(groups@, 0, 8) =~= values);
            }
        },
    }
    assert(out@ =~= old(out)@ + ipv6_text(ip));
}

/// Append an IP address of either family to `out`.
pub fn push_ip(out: &mut String, ip: IpAddr)
    ensures
        final(out)@ == old(out)@ + ip_text(ip),
{
    match ip {
        IpAddr::V4(v4) => push_ipv4(out, v4),
        IpAddr::V6(v6) => push_ipv6(out, v6),
    }
}

/// Append a socket address to `out`.
pub fn push_socket(out: &mut String, addr: SocketAddr)
    ensures
        final(out)@ == old(out)@ + socket_text(addr),
{
    match addr {
        SocketAddr::V4(v4) => {
            push_ipv4(out, v4.ip);
            out.append(":");
            push_decimal(out, v4.port as u128);
        },
        SocketAddr::V6(v6) => {
            out.append("[");
            push_ipv6(out, v6.ip);
            if v6.scope_id != 0 {
                out.append("%");
                push_decimal(out, v6.scope_id as u128);
            }
            out.append("]:");
            push_decimal(out, v6.port as u128);
        },
    }
    assert(out@ =~= old(out)@ + socket_text(addr));
}

/// Whether a character is white space (the Unicode property `White_Space`).
pub open spec fn is_space(c: char) -> bool {
    ||| '\u{9}' <= c <= '\u{d}'
    ||| c == '\u{20}'
    ||| c == '\u{85}'
    ||| c == '\u{a0}'
    ||| c == '\u{1680}'
    ||| '\u{2000}' <= c <= '\u{200a}'
    ||| c == '\u{2028}'
    ||| c == '\u{2029}'
    ||| c == '\u{202f}'
    ||| c == '\u{205f}'
    ||| c == '\u{3000}'
}

/// `text` without white space at its ends.
pub open spec fn trimmed(text: Seq<char>) -> Seq<char>
    decreases text.len(),
{
    if text.len() > 0 && is_space(text[0]) {
        trimmed(text.drop_first())
    } else if text.len() > 0 && is_space(text.last()) {
        trimmed(text.drop_last())
    } else {
        text
    }
}

/// Whether a character is a decimal digit.
pub open spec fn is_digit(c: char) -> bool {
    '0' <= c <= '9'
}

/// The number that decimal digits spell.
pub open spec fn digits_value(digits: Seq<char>) -> nat
    decreases digits.len(),
{
    if digits.len() == 0 {
        0
    } else {
        digits_value(digits.drop_last()) * 10 + (digits.last() as nat - '0' as nat) as nat
    }
}

/// Whether `text` consists of decimal digits.
pub open spec fn all_digits(text: Seq<char>) -> bool {
    forall|i: int| 0 <= i < text.len() ==> is_digit(#[trigger] text[i])
}

/// The number of at most 16 bits that decimal digits spell.
pub open spec fn unsigned_port(digits: Seq<char>) -> Option<u16> {
    if digits.len() > 0 && all_digits(digits) && digits_value(digits) <= 0xffff {
        Some(digits_value(digits) as u16)
    } else {
        None
    }
}

/// The port that `text` spells: decimal digits, behind a plus sign or not, for a
/// number of at most 16 bits.
pub open spec fn port_number(text: Seq<char>) -> Option<u16> {
    if text.len() > 0 && text[0] == '+' {
        unsigned_port(text.drop_first())
    } else {
        unsigned_port(text)
    }
}

/// Whether a character is white space.
fn space(c: char) -> (space: bool)
    ensures
        space == is_space(c),
{
    ('\u{9}' <= c && c <= '\u{d}') || c == '\u{20}' || c == '\u{85}' || c == '\u{a0}' || c
        == '\u{1680}' || ('\u{2000}' <= c && c <= '\u{200a}') || c == '\u{2028}' || c
        == '\u{2029}' || c == '\u{202f}' || c == '\u{205f}' || c == '\u{3000}'
}

/// Narrow the part of `text` from index `from` to before `to` until it has no
/// white space at its ends.
pub fn trim_bounds(text: &str, from: usize, to: usize) -> (bounds: (usize, usize))
    requires
        from <= to <= text@.len(),
    ensures
        from <= bounds.0 <= bounds.1 <= to,
        text@.subrange(bounds.0 as int, bounds.1 as int) == trimmed(
            text@.subrange(from as int, to as int),
        ),
{
    let mut a: usize = from;
    let mut b: usize = to;
    let ghost whole = text@.subrange(from as int, to as int);
    while a < b && space(text.get_char(a))
        invariant
            from <= a <= b <= to <= text@.len(),
            b == to,
            trimmed(whole) == trimmed(text@.subrange(a as int, b as int)),
        decreases b - a,
    {
        let ghost part = text@.subrange(a as int, b as int);
        proof {
            assert(part.drop_first() =~= text@.subrange(a + 1, b as int));
        }
        a += 1;
    }
    while b > a && space(text.get_char(b - 1))
        invariant
            from <= a <= b <= to <= text@.len(),
            a < b ==> !is_space(text@[a as int]),
            trimmed(whole) == trimmed(text@.subrange(a as int, b as int)),
        decreases b - a,
    {
        let ghost part = text@.subrange(a as int, b as int);
        proof {
            assert(part.drop_last() =~= text@.subrange(a as int, b - 1));
        }
        b -= 1;
    }
    proof {
        let part = text@.subrange(a as int, b as int);
        assert(part.len() > 0 ==> !is_space(part[0]) && !is_space(part.last()));
    }
    (a, b)
}

proof fn lemma_digits_value_grows(digits: Seq<char>, n: int)
    requires
        0 <= n <= digits.len(),
    ensures
        digits_value(digits.take(n)) <= digits_value(digits),
    decreases digits.len(),
{
    if n < digits.len() {
        lemma_digits_value_grows(digits.drop_last(), n);
        assert(digits.drop_last().take(n) =~= digits.take(n));
    } else {
        assert(digits.take(n) =~= digits);
    }
}

/// Read the port that the part of `text` from index `from` to before `to` spells.
pub fn parse_port(text: &str, from: usize, to: usize) -> (port: Option<u16>)
    requires
        from <= to <= text@.len(),
    ensures
        port == port_number(text@.subrange(from as int, to as int)),
{
    let ghost part = text@.subrange(from as int, to as int);
    assert(part.len() > 0 ==> part[0] == text@[from as int]);
    let start: usize = if from < to && text.get_char(from) == '+' {
        from + 1
    } else {
        from
    };
    let ghost digits = text@.subrange(start as int, to as int);
    proof {
        if part.len() > 0 && part[0] == '+' {
            assert(digits =~= part.drop_first());
        } else {
            assert(digits =~= part);
        }
        assert(port_number(part) == unsigned_port(digits));
    }
    if start == to {
        return None;
    }
    let mut value: u32 = 0;
    let mut i: usize = start;
    assert(digits.take(0) =~= Seq::<char>::empty());
    while i < to
        invariant
            from <= start <= i <= to <= text@.len(),
            digits == text@.subrange(start as int, to as int),
            value as nat == digits_value(digits.take(i - start)),
            value <= 0xffff,
            forall|j: int| 0 <= j < i - start ==> is_digit(#[trigger] digits[j]),
            start < to,
            port_number(text@.subrange(from as int, to as int)) == unsigned_port(digits),
        decreases to - i,
    {
        let c: char = text.get_char(i);
        assert(digits[i - start] == c);
        if c < '0' || c > '9' {
            return None;
        }
        proof {
            assert(digits.take(i + 1 - start).drop_last() =~= digits.take(i - start));
            lemma_digits_value_grows(digits, i + 1 - start);
        }
        value = value * 10 + (c as u32 - '0' as u32);
        if value > 0xffff {
            return None;
        }
        i += 1;
    }
    assert(digits.take(to - start) =~= digits);
    Some(value as u16)
}

/// Every digit is shown by its character.
pub proof fn digits_are_shown_by_value(digit: nat)
    requires
        digit < 16,
    ensures
        digit_char(digit) == "0123456789abcdef"@[digit as int],
        digit < 10 ==> is_digit(digit_char(digit)) && digit_char(digit) as nat == '0' as nat + digit,
{
    reveal_strlit("0123456789abcdef");
    assert(digit == 0 || digit == 1 || digit == 2 || digit == 3 || digit == 4 || digit == 5 || digit
        == 6 || digit == 7 || digit == 8 || digit == 9 || digit == 10 || digit == 11 || digit == 12
        || digit == 13 || digit == 14 || digit == 15);
}

/// A number of one digit is shown by that, and one more digit behind a number
/// that is not zero is shown behind it; a byte is always shown by two.
pub proof fn numerals_grow_by_a_digit(value: nat, digit: nat, radix: nat, high: u8, low: u8)
    requires
        2 <= radix <= 16,
        digit < radix,
        high < 16,
        low < 16,
    ensures
        numeral(digit, radix) == seq!["0123456789abcdef"@[digit as int]],
        value > 0 ==> numeral(value * radix + digit, radix) == numeral(value, radix).push(
            "0123456789abcdef"@[digit as int],
        ),
        hex_byte((high * 16 + low) as u8) == seq![
            "0123456789abcdef"@[high as int],
            "0123456789abcdef"@[low as int],
        ],
{
    digits_are_shown_by_value(digit);
    digits_are_shown_by_value(high as nat);
    digits_are_shown_by_value(low as nat);
    let longer = value * radix + digit;
    lemma_fundamental_div_mod_converse(longer as int, radix as int, value as int, digit as int);
    if value > 0 {
        assert(longer >= radix) by (nonlinear_arith)
            requires
                longer == value * radix + digit,
                value > 0,
        ;
    }
}

/// A number in decimal consists of digits that spell it, without leading zeros.
pub proof fn decimals_read_back(value: nat)
    ensures
        decimal(value).len() > 0,
        all_digits(decimal(value)),
        digits_value(decimal(value)) == value,
        value > 0 ==> decimal(value)[0] != '0',
    decreases value,
{
    reveal_with_fuel(digits_value, 2);
    if value < 10 {
        digits_are_shown_by_value(value);
        assert(decimal(value).drop_last() =~= Seq::<char>::empty());
    } else {
        decimals_read_back(value / 10);
        digits_are_shown_by_value(value % 10);
        assert(decimal(value).drop_last() =~= decimal(value / 10));
    }
}

/// A port is read digit by digit: one more digit makes it ten times as much and
/// that digit, as long as it has 16 bits. Nothing but digits is read, except for a
/// plus sign in front of them.
pub proof fn ports_are_read_by_digit(text: Seq<char>, digit: nat, c: char)
    requires
        digit < 10,
        !('0' <= c <= '9'),
    ensures
        ({
            let longer = text.push("0123456789abcdef"@[digit as int]);
            &&& port_number(seq!["0123456789abcdef"@[digit as int]]) == Some(digit as u16)
            &&& port_number(text) matches Some(port) ==> (port_number(longer) == (if port * 10
                + digit <= 0xffff {
                Some((port * 10 + digit) as u16)
            } else {
                None
            }))
            &&& text.len() > 0 && text != seq!['+'] && port_number(text) is None ==> port_number(
                longer,
            ) is None
        }),
        port_number(Seq::empty()) is None,
        port_number(seq![c]) is None,
        text.len() > 0 ==> port_number(text.push(c)) is None,
        port_number(seq!['+'] + text) == (if text.len() > 0 && text[0] == '+' {
            None
        } else {
            port_number(text)
        }),
{
    digits_are_shown_by_value(digit);
    let d = digit_char(digit);
    lemma_port_grows(text, d);
    lemma_port_grows(Seq::empty(), d);
    assert(Seq::empty().push(d) =~= seq![d]);
    lemma_port_grows(text, c);
    lemma_port_grows(Seq::empty(), c);
    assert(Seq::empty().push(c) =~= seq![c]);
    if seq![c][0] == '+' {
        assert(seq![c].drop_first() =~= Seq::<char>::empty());
    }
    assert((seq!['+'] + text).drop_first() =~= text);
    if text.len() > 0 && text[0] == '+' {
        assert(!is_digit(text[0]));
        lemma_port_grows(text.drop_first(), d);
        lemma_port_grows(text.drop_first(), c);
        assert(text.push(d).drop_first() =~= text.drop_first().push(d));
        assert(text.push(c).drop_first() =~= text.drop_first().push(c));
        if text.len() == 1 {
            assert(text =~= seq!['+']);
        }
    }
}

proof fn lemma_port_grows(digits: Seq<char>, c: char)
    ensures
        all_digits(digits.push(c)) <==> all_digits(digits) && is_digit(c),
        digits_value(digits.push(c)) == digits_value(digits) * 10 + (c as nat - '0' as nat) as nat,
{
    assert(digits.push(c).drop_last() =~= digits);
    if all_digits(digits.push(c)) {
        assert forall|i: int| 0 <= i < digits.len() implies is_digit(#[trigger] digits[i]) by {
            assert(digits.push(c)[i] == digits[i]);
        }
        assert(digits.push(c)[digits.len() as int] == c);
    }
}

/// The white space of Unicode, by number.
pub proof fn white_space_by_number(c: char)
    ensures
        is_space(c) <==> (9 <= c as nat <= 13 || c as nat == 32 || c as nat == 133 || c as nat == 160
            || c as nat == 5760 || 8192 <= c as nat <= 8202 || c as nat == 8232 || c as nat == 8233
            || c as nat == 8239 || c as nat == 8287 || c as nat == 12288),
{
}

/// Trimming takes the white space off both ends and nothing else.
pub proof fn trimming_keeps_what_is_between(left: Seq<char>, text: Seq<char>, right: Seq<char>)
    requires
        forall|i: int| 0 <= i < left.len() ==> is_space(#[trigger] left[i]),
        forall|i: int| 0 <= i < right.len() ==> is_space(#[trigger] right[i]),
        text.len() > 0 ==> !is_space(text[0]) && !is_space(text.last()),
    ensures
        trimmed(left + text + right) == text,
    decreases left.len() + right.len(),
{
    let whole = left + text + right;
    if left.len() > 0 {
        assert(whole[0] == left[0]);
        assert(whole.drop_first() =~= left.drop_first() + text + right);
        trimming_keeps_what_is_between(left.drop_first(), text, right);
    } else if right.len() > 0 {
        assert(whole.last() == right.last());
        if text.len() > 0 {
            assert(whole[0] == text[0]);
            assert(whole.drop_last() =~= left + text + right.drop_last());
            trimming_keeps_what_is_between(left, text, right.drop_last());
        } else {
            assert(whole[0] == right[0]);
            assert(whole.drop_first() =~= left + text + right.drop_first());
            trimming_keeps_what_is_between(left, text, right.drop_first());
        }
    } else {
        assert(whole =~= text);
    }
}

/// An IPv4 address is shown by its four octets, with dots between them; a socket
/// by its address and its port, with a scope where it has one.
pub proof fn addresses_are_shown_by_their_parts(a: u8, b: u8, c: u8, d: u8, v4: SocketAddrV4, v6: SocketAddrV6)
    ensures
        ipv4_text(Ipv4Addr { bits: (a * 0x100_0000 + b * 0x1_0000 + c * 0x100 + d) as u32 })
            == decimal(a as nat) + "."@ + decimal(b as nat) + "."@ + decimal(c as nat) + "."@
            + decimal(d as nat),
        socket_text(SocketAddr::V4(v4)) == ipv4_text(v4.ip) + ":"@ + decimal(v4.port as nat),
        v6.scope_id == 0 ==> socket_text(SocketAddr::V6(v6)) == "["@ + ipv6_text(v6.ip) + "]:"@
            + decimal(v6.port as nat),
        v6.scope_id != 0 ==> socket_text(SocketAddr::V6(v6)) == "["@ + ipv6_text(v6.ip) + "%"@
            + decimal(v6.scope_id as nat) + "]:"@ + decimal(v6.port as nat),
        ip_text(IpAddr::V4(v4.ip)) == ipv4_text(v4.ip),
        ip_text(IpAddr::V6(v6.ip)) == ipv6_text(v6.ip),
{
    let octets = seq![a, b, c, d];
    lemma_be_value_of_four(octets);
    lemma_be_bytes_of_value(octets);
    if v6.scope_id == 0 {
        assert(socket_text(SocketAddr::V6(v6)) =~= "["@ + ipv6_text(v6.ip) + "]:"@ + decimal(
            v6.port as nat,
        ));
    } else {
        assert(socket_text(SocketAddr::V6(v6)) =~= "["@ + ipv6_text(v6.ip) + "%"@ + decimal(
            v6.scope_id as nat,
        ) + "]:"@ + decimal(v6.port as nat));
    }
}

/// Groups are shown in hexadecimal, and wherever they are cut in two there is one
/// colon between the parts.
pub proof fn groups_are_joined_by_colons(left: Seq<nat>, right: Seq<nat>, group: nat)
    ensures
        joined_groups(Seq::empty()) == Seq::<char>::empty(),
        joined_groups(seq![group]) == numeral(group, 16),
        left.len() > 0 && right.len() > 0 ==> joined_groups(left + right) == joined_groups(left)
            + ":"@ + joined_groups(right),
    decreases right.len(),
{
    if left.len() > 0 && right.len() > 0 {
        assert((left + right).drop_last() =~= left + right.drop_last());
        if right.len() > 1 {
            groups_are_joined_by_colons(left, right.drop_last(), group);
        } else {
            assert(left + right.drop_last() =~= left);
        }
        assert(joined_groups(left + right) =~= joined_groups(left) + ":"@ + joined_groups(right));
    }
}

/// Whether the groups from `from` to before `to` are all zero.
pub open spec fn all_zero(groups: Seq<nat>, from: int, to: int) -> bool {
    forall|i: int| from <= i < to ==> #[trigger] groups[i] == 0
}

proof fn lemma_zero_run(groups: Seq<nat>, from: int)
    requires
        0 <= from <= groups.len(),
    ensures
        from + zero_run(groups, from) <= groups.len(),
        all_zero(groups, from, from + zero_run(groups, from)),
        from + zero_run(groups, from) < groups.len() ==> groups[from + zero_run(groups, from)] != 0,
    decreases groups.len() - from,
{
    if from < groups.len() && groups[from] == 0 {
        lemma_zero_run(groups, from + 1);
    }
}

/// An IPv6 address leaves out the first of its longest runs of zero groups, in
/// favour of two colons, where that run has at least two groups.
pub proof fn the_longest_zero_run_is_left_out(ip: Ipv6Addr, start: int, len: int)
    requires
        ip.bits < 0xffff_0000_0000 || ip.bits > 0xffff_ffff_ffff,
        len >= 2,
        0 <= start <= 8 - len,
        all_zero(ip.spec_segments(), start, start + len),
        forall|a: int, b: int|
            0 <= a < b <= 8 && #[trigger] all_zero(ip.spec_segments(), a, b) ==> b - a < len || (b
                - a == len && a >= start),
    ensures
        ipv6_text(ip) == joined_groups(ip.spec_segments().take(start)) + "::"@ + joined_groups(
            ip.spec_segments().skip(start + len),
        ),
{
    let groups = ip.spec_segments();
    lemma_zero_run(groups, start);
    let found = zero_run(groups, start);
    assert(all_zero(groups, start, start + found));
    assert(found == len);
    assert forall|j: int| 0 <= j < groups.len() implies #[trigger] zero_run(groups, j) <= zero_run(
        groups,
        start,
    ) && (j < start ==> zero_run(groups, j) < zero_run(groups, start)) by {
        lemma_zero_run(groups, j);
        assert(all_zero(groups, j, j + zero_run(groups, j)));
    }
    assert(is_longest_run(groups, start));
    lemma_longest_run(groups, start);
}

/// An IPv6 address without two zero groups in a row shows all its groups; one that
/// carries an IPv4 address shows that.
pub proof fn other_ipv6_addresses_are_shown_whole(ip: Ipv6Addr, v4: Ipv4Addr)
    ensures
        (ip.bits < 0xffff_0000_0000 || ip.bits > 0xffff_ffff_ffff) && (forall|i: int|
            0 <= i < 7 ==> (#[trigger] ip.spec_segments()[i] != 0 || ip.spec_segments()[i + 1]
                != 0)) ==> ipv6_text(ip) == joined_groups(ip.spec_segments()),
        ipv6_text(Ipv6Addr { bits: (0xffff_0000_0000 + v4.bits) as u128 }) == "::ffff:"@
            + ipv4_text(v4),
{
    let groups = ip.spec_segments();
    let start = longest_run(groups);
    let len = zero_run(groups, start);
    if len > 1 {
        reveal_with_fuel(zero_run, 3);
        assert(groups[start] == 0 && groups[start + 1] == 0);
    }
}

} // verus!
