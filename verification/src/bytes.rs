//! Big-endian integers and UTF-8 text inside byte sequences.

use vstd::prelude::*;
use vstd::utf8::*;

verus! {

/// The number that `bytes` spells, most significant byte first.
pub open spec fn be_value(bytes: Seq<u8>) -> nat
    decreases bytes.len(),
{
    if bytes.len() == 0 {
        0
    } else {
        be_value(bytes.drop_last()) * 256 + bytes.last() as nat
    }
}

/// The low `width` bytes of `value`, most significant byte first.
pub open spec fn be_bytes(value: nat, width: nat) -> Seq<u8>
    decreases width,
{
    if width == 0 {
        Seq::empty()
    } else {
        be_bytes(value / 256, (width - 1) as nat).push((value % 256) as u8)
    }
}

/// The number of values that `width` bytes can spell.
pub open spec fn be_limit(width: nat) -> nat
    decreases width,
{
    if width == 0 {
        1
    } else {
        256 * be_limit((width - 1) as nat)
    }
}

/// `be_bytes` yields exactly `width` bytes.
pub proof fn lemma_be_bytes_len(value: nat, width: nat)
    ensures
        be_bytes(value, width).len() == width,
    decreases width,
{
    if width > 0 {
        lemma_be_bytes_len(value / 256, (width - 1) as nat);
    }
}

/// Reading back what was written yields the same number, when it fits.
pub proof fn lemma_be_value_of_bytes(value: nat, width: nat)
    requires
        value < be_limit(width),
    ensures
        be_value(be_bytes(value, width)) == value,
    decreases width,
{
    if width > 0 {
        let head = be_bytes(value / 256, (width - 1) as nat);
        lemma_be_value_of_bytes(value / 256, (width - 1) as nat);
        assert(head.push((value % 256) as u8).drop_last() =~= head);
    }
}

/// Writing back what was read yields the same bytes.
pub proof fn lemma_be_bytes_of_value(bytes: Seq<u8>)
    ensures
        be_bytes(be_value(bytes), bytes.len()) == bytes,
        be_value(bytes) < be_limit(bytes.len()),
    decreases bytes.len(),
{
    if bytes.len() > 0 {
        lemma_be_bytes_of_value(bytes.drop_last());
        assert(bytes.drop_last().push(bytes.last()) =~= bytes);
    }
}

/// The limits of the widths in use.
pub proof fn lemma_be_limits()
    ensures
        be_limit(2) == 0x1_0000,
        be_limit(4) == 0x1_0000_0000,
        be_limit(16) == 0x1_0000_0000_0000_0000_0000_0000_0000_0000,
{
    reveal_with_fuel(be_limit, 17);
}

/// Append the low `width` bytes of `value` to `out`, most significant first.
pub fn push_be(out: &mut Vec<u8>, value: u128, width: usize)
    ensures
        final(out)@ == old(out)@ + be_bytes(value as nat, width as nat),
    decreases width,
{
    if width > 0 {
        push_be(out, value / 256, width - 1);
        out.push((value % 256) as u8);
    }
    proof {
        assert(final(out)@ =~= old(out)@ + be_bytes(value as nat, width as nat));
    }
}

/// Read the `width` bytes of `bytes` from index `from` on, most significant
/// first.
pub fn read_be(bytes: &[u8], from: usize, width: usize) -> (value: u128)
    requires
        width <= 16,
        from + width <= bytes.len(),
    ensures
        value as nat == be_value(bytes@.subrange(from as int, from + width)),
{
    let mut value: u128 = 0;
    let mut done: usize = 0;
    while done < width
        invariant
            done <= width <= 16,
            from + width <= bytes.len(),
            value as nat == be_value(bytes@.subrange(from as int, from + done)),
            value < be_limit(done as nat),
        decreases width - done,
    {
        proof {
            let next = bytes@.subrange(from as int, from + done + 1);
            assert(next.drop_last() =~= bytes@.subrange(from as int, from + done));
            lemma_be_bytes_of_value(next);
            lemma_be_limits();
            lemma_be_limit_grows((done + 1) as nat, 16);
        }
        value = value * 256 + bytes[from + done] as u128;
        done += 1;
    }
    value
}

proof fn lemma_be_limit_grows(a: nat, b: nat)
    requires
        a <= b,
    ensures
        be_limit(a) <= be_limit(b),
        be_limit(a) > 0,
    decreases b,
{
    if a < b {
        lemma_be_limit_grows(a, (b - 1) as nat);
    } else if a > 0 {
        lemma_be_limit_grows((a - 1) as nat, (b - 1) as nat);
    }
}

/// View `bytes` as text, through `std::str::from_utf8`.
///
/// Taken on trust: `Some` is returned exactly when `bytes` is valid UTF-8, and
/// the text's own bytes are then `bytes`.
#[verifier::external_body]
fn text_of(bytes: &[u8]) -> (text: Option<&str>)
    ensures
        text is Some <==> valid_utf8(bytes@),
        text matches Some(t) ==> encode_utf8(t@) == bytes@,
{
    std::str::from_utf8(bytes).ok()
}

/// Copy `bytes` into a string when they are valid UTF-8.
pub fn utf8_string(bytes: &[u8]) -> (text: Option<String>)
    ensures
        text is Some <==> valid_utf8(bytes@),
        text matches Some(t) ==> t@ == decode_utf8(bytes@) && encode_utf8(t@) == bytes@,
{
    match text_of(bytes) {
        Some(text) => {
            proof {
                encode_utf8_decode_utf8(text@);
            }
            Some(text.to_owned())
        },
        None => None,
    }
}

/// Copy a slice of bytes.
pub fn copy_of(bytes: &[u8]) -> (copy: Vec<u8>)
    ensures
        copy@ == bytes@,
{
    let mut copy: Vec<u8> = Vec::new();
    copy.extend_from_slice(bytes);
    assert(copy@ =~= bytes@);
    copy
}

/// Two bytes spell a number below `2^16`: the high one first.
pub proof fn two_bytes_are_high_then_low(value: u16)
    ensures
        be_bytes(value as nat, 2) == seq![(value / 256) as u8, (value % 256) as u8],
{
    reveal_with_fuel(be_bytes, 3);
    assert(be_bytes(value as nat, 2) =~= seq![(value / 256) as u8, (value % 256) as u8]);
}

/// Each byte further in front weighs 256 times as much: a number is its last byte
/// and 256 times what the bytes before it spell.
pub proof fn bytes_weigh_by_place(bytes: Seq<u8>, last: u8)
    ensures
        be_value(bytes.push(last)) == be_value(bytes) * 256 + last,
        be_value(Seq::<u8>::empty()) == 0,
{
    assert(bytes.push(last).drop_last() =~= bytes);
}

} // verus!
