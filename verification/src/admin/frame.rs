//! Length-prefixed frames, and the messages that they carry.

use vstd::prelude::*;

use crate::bytes::{be_bytes, be_value, lemma_be_bytes_len, lemma_be_bytes_of_value, lemma_be_limits, lemma_be_value_of_bytes, push_be, read_be};
use crate::metrics::{ConnInfo, Event, Snapshot};
use crate::net::lemma_be_value_of_four;
use crate::text::{decimal, push_decimal};

verus! {

/// Wire protocol version. Bump on any breaking change to `Frame`.
pub const PROTO_VERSION: u16 = 1;

/// Maximum accepted frame length (1 MiB). Guards against corrupt/oversized
/// length prefixes causing huge allocations.
pub const MAX_FRAME_LEN: u32 = 0x10_0000;

/// A single message on the attach connection.
#[derive(Debug, PartialEq, Eq)]
pub enum Frame {
    /// Handshake, sent first by the server.
    Hello { proto: u16, listen_addr: Option<String> },
    /// Periodic snapshot of global counters and active connections.
    Stats { snapshot: Snapshot, connections: Vec<ConnInfo> },
    /// A log/lifecycle event (replayed history or live).
    Event(Event),
}

/// Error reading or writing a frame.
#[derive(Debug, PartialEq, Eq)]
pub enum FrameError {
    /// The stream failed, in words.
    Io(String),
    /// The body is longer than [`MAX_FRAME_LEN`].
    TooLarge(u32),
    /// The body is not a message, in words.
    Decode(String),
}

/// What the bytes of a stream amount to.
#[derive(Debug, PartialEq, Eq)]
pub enum FrameRead<'a> {
    /// This many more bytes are needed.
    Need(usize),
    /// The body of the first frame.
    Body(&'a [u8]),
}

/// What a [`FrameRead`] stands for.
pub enum FrameReadView {
    Need(nat),
    Body(Seq<u8>),
}

impl<'a> View for FrameRead<'a> {
    type V = FrameReadView;

    open spec fn view(&self) -> FrameReadView {
        match self {
            FrameRead::Need(n) => FrameReadView::Need(*n as nat),
            FrameRead::Body(body) => FrameReadView::Body(body@),
        }
    }
}

/// A body behind its length, four bytes long.
pub open spec fn framed(body: Seq<u8>) -> Seq<u8> {
    be_bytes(body.len(), 4) + body
}

/// What the start of a stream amounts to: the body of a frame, how many more
/// bytes are needed for one, or a length that is too large.
pub open spec fn frame_at(bytes: Seq<u8>) -> Result<FrameReadView, u32> {
    if bytes.len() < 4 {
        Ok(FrameReadView::Need((4 - bytes.len()) as nat))
    } else {
        let len = be_value(bytes.take(4));
        if len > MAX_FRAME_LEN {
            Err(len as u32)
        } else if bytes.len() < 4 + len {
            Ok(FrameReadView::Need((4 + len - bytes.len()) as nat))
        } else {
            Ok(FrameReadView::Body(bytes.subrange(4, 4 + len as int)))
        }
    }
}

/// Put `body` behind its length.
pub fn write_frame(body: &[u8]) -> (result: Result<Vec<u8>, FrameError>)
    ensures
        match result {
            Ok(frame) => body@.len() <= MAX_FRAME_LEN && frame@ == framed(body@),
            Err(error) => body@.len() > MAX_FRAME_LEN && error == FrameError::TooLarge(
                (body@.len() % 0x1_0000_0000) as u32,
            ),
        },
{
    if body.len() > MAX_FRAME_LEN as usize {
        return Err(FrameError::TooLarge((body.len() as u64 % 0x1_0000_0000) as u32));
    }
    let mut frame: Vec<u8> = Vec::new();
    push_be(&mut frame, body.len() as u128, 4);
    frame.extend_from_slice(body);
    assert(frame@ =~= framed(body@));
    Ok(frame)
}

/// Take the first frame off the `bytes` of a stream.
pub fn read_frame(bytes: &[u8]) -> (result: Result<FrameRead<'_>, FrameError>)
    ensures
        match result {
            Ok(read) => frame_at(bytes@) == Ok::<FrameReadView, u32>(read@),
            Err(error) => frame_at(bytes@) matches Err(len) && error == FrameError::TooLarge(len),
        },
{
    if bytes.len() < 4 {
        return Ok(FrameRead::Need(4 - bytes.len()));
    }
    proof {
        lemma_be_limits();
        lemma_be_bytes_of_value(bytes@.take(4));
        assert(bytes@.subrange(0, 4) =~= bytes@.take(4));
    }
    let len: u32 = read_be(bytes, 0, 4) as u32;
    if len > MAX_FRAME_LEN {
        return Err(FrameError::TooLarge(len));
    }
    let total: usize = 4 + len as usize;
    if bytes.len() < total {
        Ok(FrameRead::Need(total - bytes.len()))
    } else {
        Ok(FrameRead::Body(vstd::slice::slice_subrange(bytes, 4, total)))
    }
}

impl FrameError {
    /// The error in words.
    pub open spec fn spec_message(self) -> Seq<char> {
        match self {
            FrameError::Io(error) => "io error: "@ + error@,
            FrameError::TooLarge(len) => "frame too large: "@ + decimal(len as nat)
                + " bytes (max "@ + decimal(MAX_FRAME_LEN as nat) + ")"@,
            FrameError::Decode(error) => "decode error: "@ + error@,
        }
    }

    /// The error in words.
    pub fn message(&self) -> (text: String)
        ensures
            text@ == self.spec_message(),
    {
        match self {
            FrameError::Io(error) => {
                let mut text: String = "io error: ".to_owned();
                text.append(error.as_str());
                text
            },
            FrameError::TooLarge(len) => {
                let mut text: String = "frame too large: ".to_owned();
                push_decimal(&mut text, *len as u128);
                text.append(" bytes (max ");
                push_decimal(&mut text, MAX_FRAME_LEN as u128);
                text.append(")");
                text
            },
            FrameError::Decode(error) => {
                let mut text: String = "decode error: ".to_owned();
                text.append(error.as_str());
                text
            },
        }
    }
}

/// Reading a written frame gives its body back, whatever follows it.
pub proof fn read_inverts_write(body: Seq<u8>, tail: Seq<u8>)
    requires
        body.len() <= MAX_FRAME_LEN,
    ensures
        frame_at(framed(body) + tail) == Ok::<FrameReadView, u32>(FrameReadView::Body(body)),
{
    let bytes = framed(body) + tail;
    lemma_be_limits();
    lemma_be_bytes_len(body.len(), 4);
    lemma_be_value_of_bytes(body.len(), 4);
    assert(bytes.take(4) =~= be_bytes(body.len(), 4));
    assert(bytes.subrange(4, 4 + body.len() as int) =~= body);
}

/// Reading as many bytes as are asked for never reads past the first frame.
pub proof fn reads_never_pass_the_frame(bytes: Seq<u8>, more: Seq<u8>, need: nat)
    requires
        frame_at(bytes) == Ok::<FrameReadView, u32>(FrameReadView::Need(need)),
        more.len() == need,
    ensures
        need > 0,
        frame_at(bytes + more) matches Ok(FrameReadView::Body(body)) ==> bytes + more == framed(body),
        bytes.len() >= 4 ==> frame_at(bytes + more) matches Ok(FrameReadView::Body(_)),
{
    let whole = bytes + more;
    if whole.len() >= 4 {
        if bytes.len() >= 4 {
            assert(whole.take(4) =~= bytes.take(4));
        }
        lemma_be_bytes_of_value(whole.take(4));
        if let Ok(FrameReadView::Body(body)) = frame_at(whole) {
            assert(whole =~= framed(body));
        }
    }
}

/// A frame starts with the length of its body in four bytes, the most significant
/// first. A length over the limit is an error whatever follows; otherwise what is
/// missing of the frame is asked for.
pub proof fn frames_are_spelled(a: u8, b: u8, c: u8, d: u8, rest: Seq<u8>)
    ensures
        ({
            let len = a * 0x100_0000 + b * 0x1_0000 + c * 0x100 + d;
            let bytes = seq![a, b, c, d] + rest;
            &&& len > 1024 * 1024 ==> frame_at(bytes) == Err::<FrameReadView, u32>(len as u32)
            &&& rest.len() < len <= 1024 * 1024 ==> frame_at(bytes) == Ok::<FrameReadView, u32>(
                FrameReadView::Need((len - rest.len()) as nat),
            )
            &&& len <= rest.len() && len <= 1024 * 1024 ==> frame_at(bytes) == Ok::<
                FrameReadView,
                u32,
            >(FrameReadView::Body(rest.take(len)))
            &&& rest.len() == len ==> framed(rest) == bytes
        }),
        rest.len() < 4 ==> frame_at(rest) == Ok::<FrameReadView, u32>(
            FrameReadView::Need((4 - rest.len()) as nat),
        ),
{
    let head = seq![a, b, c, d];
    let bytes = head + rest;
    let len = a * 0x100_0000 + b * 0x1_0000 + c * 0x100 + d;
    lemma_be_value_of_four(head);
    lemma_be_bytes_of_value(head);
    assert(bytes.take(4) =~= head);
    if 4 + len <= bytes.len() {
        assert(bytes.subrange(4, 4 + len) =~= rest.take(len));
    }
}

} // verus!
