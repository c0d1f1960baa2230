//! The counted bidirectional relay of a CONNECT request.
//!
//! Each direction is copied on its own until its source closes, so half-open
//! connections are supported: when one direction reaches EOF, only that direction
//! stops and the writer it feeds is shut down (propagating the FIN) — the other
//! direction keeps relaying until it too reaches EOF. `client -> upstream` bytes
//! count as upload, the reverse as download.
//!
//! The two directions share a single "last activity" instant so an idle direction
//! does not half-close while the other is actively transferring; teardown on
//! idleness only happens when NEITHER direction has moved bytes for the idle
//! window.
//!
//! Instants are nanoseconds on one clock, the same for all calls.

use vstd::prelude::*;

use crate::error::{IoErrorKind, IoFailure, IoFailureView};
use crate::metrics::{Metrics, MetricsView};

verus! {

/// How many bytes a direction reads at once.
pub const RELAY_BUF: usize = 65536;

/// Which direction a relay copies, used to pick the byte counter.
#[derive(Debug, Clone, Copy, PartialEq, Eq, Structural)]
pub enum Direction {
    Up,
    Down,
}

/// How a read went.
#[derive(Debug, PartialEq, Eq)]
pub enum ReadOutcome {
    /// This many bytes came in; none means EOF.
    Bytes(usize),
    /// The idle window elapsed.
    Idle,
    /// It failed.
    Failed(IoFailure),
}

/// What a [`ReadOutcome`] stands for.
pub enum ReadView {
    Bytes(usize),
    Idle,
    Failed(IoFailureView),
}

/// How a write went.
#[derive(Debug, PartialEq, Eq)]
pub enum WriteOutcome {
    /// All bytes were written.
    Done,
    /// It failed.
    Failed(IoFailure),
    /// It was stuck for the idle window: the peer does not drain its socket.
    Stuck,
}

/// What a [`WriteOutcome`] stands for.
pub enum WriteView {
    Done,
    Failed(IoFailureView),
    Stuck,
}

/// What one direction of a relay does next.
#[derive(Debug, Clone, Copy, PartialEq, Eq, Structural)]
pub enum CopyStep {
    /// Shut the writer down (half-close); this direction is finished.
    HalfClose,
    /// Read again.
    KeepReading,
    /// Write this many bytes within the idle window.
    Forward(usize),
    /// This direction is finished.
    Stop,
}

/// How far a direction has come.
#[derive(Debug, PartialEq, Eq)]
pub enum Progress {
    /// It is being copied.
    Running,
    /// It has ended, on EOF or idleness.
    Finished,
    /// It has ended on this error.
    Failed(IoFailure),
}

/// What a [`Progress`] stands for.
pub enum ProgressView {
    Running,
    Finished,
    Failed(IoFailureView),
}

/// Both directions of one relay.
pub struct TcpRelay {
    id: u64,
    idle: u64,
    last_activity: u64,
    up: Progress,
    down: Progress,
}

/// What a [`TcpRelay`] stands for.
#[verifier::ext_equal]
pub struct TcpRelayView {
    /// The id of the connection.
    pub id: u64,
    /// The idle window.
    pub idle: u64,
    /// When either direction last moved bytes.
    pub last_activity: u64,
    /// How far the upload has come.
    pub up: ProgressView,
    /// How far the download has come.
    pub down: ProgressView,
}

impl View for ReadOutcome {
    type V = ReadView;

    open spec fn view(&self) -> ReadView {
        match self {
            ReadOutcome::Bytes(n) => ReadView::Bytes(*n),
            ReadOutcome::Idle => ReadView::Idle,
            ReadOutcome::Failed(error) => ReadView::Failed(error@),
        }
    }
}

impl View for WriteOutcome {
    type V = WriteView;

    open spec fn view(&self) -> WriteView {
        match self {
            WriteOutcome::Done => WriteView::Done,
            WriteOutcome::Failed(error) => WriteView::Failed(error@),
            WriteOutcome::Stuck => WriteView::Stuck,
        }
    }
}

impl View for Progress {
    type V = ProgressView;

    open spec fn view(&self) -> ProgressView {
        match self {
            Progress::Running => ProgressView::Running,
            Progress::Finished => ProgressView::Finished,
            Progress::Failed(error) => ProgressView::Failed(error@),
        }
    }
}

impl View for TcpRelay {
    type V = TcpRelayView;

    closed spec fn view(&self) -> TcpRelayView {
        TcpRelayView {
            id: self.id,
            idle: self.idle,
            last_activity: self.last_activity,
            up: self.up@,
            down: self.down@,
        }
    }
}

/// The error of a write that was stuck for the idle window.
pub open spec fn stuck_write() -> IoFailureView {
    IoFailureView {
        kind: IoErrorKind::TimedOut,
        message: "relay write timed out (peer not draining)"@,
    }
}

impl TcpRelayView {
    /// A relay that starts at `now`.
    pub open spec fn initial(id: u64, idle: u64, now: u64) -> TcpRelayView {
        TcpRelayView {
            id,
            idle,
            last_activity: now,
            up: ProgressView::Running,
            down: ProgressView::Running,
        }
    }

    /// How far a direction has come.
    pub open spec fn progress(self, direction: Direction) -> ProgressView {
        match direction {
            Direction::Up => self.up,
            Direction::Down => self.down,
        }
    }

    /// After a direction has come to `progress`.
    pub open spec fn with_progress(self, direction: Direction, progress: ProgressView) -> TcpRelayView {
        match direction {
            Direction::Up => TcpRelayView { up: progress, ..self },
            Direction::Down => TcpRelayView { down: progress, ..self },
        }
    }

    /// Whether neither direction has moved bytes for the idle window.
    pub open spec fn stale(self, now: u64) -> bool {
        now >= self.last_activity && now - self.last_activity >= self.idle || self.idle == 0
    }

    /// After a read in a direction, and what it does next.
    pub open spec fn read(self, direction: Direction, read: ReadView, now: u64) -> (
        TcpRelayView,
        CopyStep,
    ) {
        let finished = self.with_progress(direction, ProgressView::Finished);
        match read {
            ReadView::Bytes(n) => if n == 0 {
                (finished, CopyStep::HalfClose)
            } else {
                (self, CopyStep::Forward(n))
            },
            ReadView::Idle => if self.stale(now) {
                (finished, CopyStep::HalfClose)
            } else {
                (self, CopyStep::KeepReading)
            },
            ReadView::Failed(error) => (
                self.with_progress(direction, ProgressView::Failed(error)),
                CopyStep::Stop,
            ),
        }
    }

    /// After a write in a direction.
    pub open spec fn written(self, direction: Direction, write: WriteView, now: u64) -> TcpRelayView {
        match write {
            WriteView::Done => TcpRelayView { last_activity: now, ..self },
            WriteView::Failed(error) => self.with_progress(
                direction,
                ProgressView::Failed(error),
            ),
            WriteView::Stuck => self.with_progress(
                direction,
                ProgressView::Failed(stuck_write()),
            ),
        }
    }

    /// The metrics after a direction has written `n` bytes, or could not.
    pub open spec fn counted(
        self,
        metrics: MetricsView,
        direction: Direction,
        n: u64,
        write: WriteView,
    ) -> MetricsView {
        match (write, direction) {
            (WriteView::Done, Direction::Up) => metrics.with_up(self.id, n),
            (WriteView::Done, Direction::Down) => metrics.with_down(self.id, n),
            _ => metrics,
        }
    }

    /// How the relay ended, once both directions have: with the upload's error,
    /// else the download's, else well.
    pub open spec fn ended(self) -> Option<Result<(), IoFailureView>> {
        if self.up is Running || self.down is Running {
            None
        } else {
            Some(
                match (self.up, self.down) {
                    (ProgressView::Failed(error), _) => Err(error),
                    (_, ProgressView::Failed(error)) => Err(error),
                    _ => Ok(()),
                },
            )
        }
    }
}

impl TcpRelay {
    /// A relay that starts at `now`.
    pub fn new(id: u64, idle: u64, now: u64) -> (relay: TcpRelay)
        ensures
            relay@ == TcpRelayView::initial(id, idle, now),
    {
        TcpRelay {
            id,
            idle,
            last_activity: now,
            up: Progress::Running,
            down: Progress::Running,
        }
    }

    fn set(&mut self, direction: Direction, progress: Progress)
        ensures
            final(self)@ == old(self)@.with_progress(direction, progress@),
    {
        match direction {
            Direction::Up => {
                self.up = progress;
            },
            Direction::Down => {
                self.down = progress;
            },
        }
    }

    /// Decide on a direction after a read.
    ///
    /// On an idle window it only winds down when the OTHER direction has also
    /// been idle for the window, so an active transfer is never truncated.
    pub fn read(&mut self, direction: Direction, read: ReadOutcome, now: u64) -> (step: CopyStep)
        ensures
            (final(self)@, step) == old(self)@.read(direction, read@, now),
    {
        match read {
            ReadOutcome::Bytes(n) => if n == 0 {
                self.set(direction, Progress::Finished);
                CopyStep::HalfClose
            } else {
                CopyStep::Forward(n)
            },
            ReadOutcome::Idle => {
                let quiet: u64 = if now >= self.last_activity {
                    now - self.last_activity
                } else {
                    0
                };
                if quiet >= self.idle {
                    self.set(direction, Progress::Finished);
                    CopyStep::HalfClose
                } else {
                    CopyStep::KeepReading
                }
            },
            ReadOutcome::Failed(error) => {
                self.set(direction, Progress::Failed(error));
                CopyStep::Stop
            },
        }
    }

    /// A write of `n` bytes in a direction has ended at `now`. Returns whether
    /// the direction reads on.
    pub fn written(
        &mut self,
        metrics: &mut Metrics,
        direction: Direction,
        n: u64,
        write: WriteOutcome,
        now: u64,
    ) -> (more: bool)
        ensures
            more == (write is Done),
            final(self)@ == old(self)@.written(direction, write@, now),
            final(metrics)@ == old(self)@.counted(old(metrics)@, direction, n, write@),
            old(metrics).wf() ==> final(metrics).wf(),
    {
        match write {
            WriteOutcome::Done => {
                self.last_activity = now;
                match direction {
                    Direction::Up => metrics.add_up(self.id, n),
                    Direction::Down => metrics.add_down(self.id, n),
                }
                true
            },
            WriteOutcome::Failed(error) => {
                self.set(direction, Progress::Failed(error));
                false
            },
            WriteOutcome::Stuck => {
                let error: IoFailure = IoFailure {
                    kind: IoErrorKind::TimedOut,
                    message: "relay write timed out (peer not draining)".to_owned(),
                };
                self.set(direction, Progress::Failed(error));
                false
            },
        }
    }

    /// How the relay ended, once both directions have: with the upload's error,
    /// else the download's, else well.
    pub fn result(&self) -> (result: Option<Result<(), IoFailure>>)
        ensures
            match result {
                Some(Ok(_)) => self@.ended() == Some(Ok::<(), IoFailureView>(())),
                Some(Err(error)) => self@.ended() == Some(Err::<(), IoFailureView>(error@)),
                None => self@.ended() is None,
            },
    {
        match (&self.up, &self.down) {
            (Progress::Running, _) => None,
            (_, Progress::Running) => None,
            (Progress::Failed(error), _) => Some(Err(error.clone())),
            (_, Progress::Failed(error)) => Some(Err(error.clone())),
            _ => Some(Ok(())),
        }
    }
}

/// Whatever one direction reads or fails to write, it does not end the other; and
/// it goes on over an idle window in which the other direction has moved bytes.
pub proof fn directions_end_on_their_own(
    relay: TcpRelayView,
    direction: Direction,
    other: Direction,
    read: ReadView,
    write: WriteView,
    now: u64,
)
    requires
        direction != other,
    ensures
        relay.read(direction, read, now).0.progress(other) == relay.progress(other),
        relay.read(direction, read, now).0.last_activity == relay.last_activity,
        relay.written(direction, write, now).progress(other) == relay.progress(other),
        relay.last_activity <= now < relay.last_activity + relay.idle ==> relay.read(
            direction,
            ReadView::Idle,
            now,
        ) == (relay, CopyStep::KeepReading),
        now >= relay.last_activity + relay.idle ==> relay.read(direction, ReadView::Idle, now).1
            == CopyStep::HalfClose,
{
}

/// What a direction has read, and what of it was written.
#[verifier::ext_equal]
pub struct Stream {
    pub read: Seq<u8>,
    pub written: Seq<u8>,
}

/// A relay at work: its state, the metrics, and the bytes of both directions.
#[verifier::ext_equal]
pub struct Copying {
    pub relay: TcpRelayView,
    pub metrics: MetricsView,
    pub up: Stream,
    pub down: Stream,
}

/// What can happen to a direction of a relay.
pub enum CopyEvent {
    /// These bytes were read, none on EOF; where there were any, their write has
    /// ended so at this instant.
    Chunk(Direction, Seq<u8>, WriteView, u64),
    /// Nothing was read for the idle window, which ended at this instant.
    Quiet(Direction, u64),
    /// A read failed.
    ReadFailed(Direction, IoFailureView),
}

impl CopyEvent {
    /// The direction that it happens to.
    pub open spec fn direction(self) -> Direction {
        match self {
            CopyEvent::Chunk(direction, _, _, _) => direction,
            CopyEvent::Quiet(direction, _) => direction,
            CopyEvent::ReadFailed(direction, _) => direction,
        }
    }

    /// Whether what was read fits in the buffer.
    pub open spec fn fits(self) -> bool {
        self matches CopyEvent::Chunk(_, chunk, _, _) ==> chunk.len() <= RELAY_BUF
    }
}

impl Copying {
    /// The bytes of a direction.
    pub open spec fn stream(self, direction: Direction) -> Stream {
        match direction {
            Direction::Up => self.up,
            Direction::Down => self.down,
        }
    }

    /// After the bytes of a direction have become `stream`.
    pub open spec fn with_stream(self, direction: Direction, stream: Stream) -> Copying {
        match direction {
            Direction::Up => Copying { up: stream, ..self },
            Direction::Down => Copying { down: stream, ..self },
        }
    }

    /// After `event`. Nothing happens to a direction that has ended.
    pub open spec fn after(self, event: CopyEvent) -> Copying {
        let direction = event.direction();
        if !(self.relay.progress(direction) is Running) {
            self
        } else {
            match event {
                CopyEvent::Chunk(_, chunk, write, now) => {
                    let (relay, step) = self.relay.read(
                        direction,
                        ReadView::Bytes(chunk.len() as usize),
                        now,
                    );
                    let before = self.stream(direction);
                    let read = before.read + chunk;
                    match step {
                        // As many of the bytes are written as the relay asks for.
                        CopyStep::Forward(n) => Copying {
                            relay: relay.written(direction, write, now),
                            metrics: relay.counted(self.metrics, direction, n as u64, write),
                            ..self.with_stream(
                                direction,
                                Stream {
                                    read,
                                    written: if write is Done {
                                        before.written + chunk.take(n as int)
                                    } else {
                                        before.written
                                    },
                                },
                            )
                        },
                        _ => Copying {
                            relay,
                            ..self.with_stream(direction, Stream { read, ..before })
                        },
                    }
                },
                CopyEvent::Quiet(_, now) => Copying {
                    relay: self.relay.read(direction, ReadView::Idle, now).0,
                    ..self
                },
                CopyEvent::ReadFailed(_, error) => Copying {
                    relay: self.relay.read(direction, ReadView::Failed(error), 0).0,
                    ..self
                },
            }
        }
    }

    /// A relay that has just started.
    pub open spec fn initial(relay: TcpRelayView, metrics: MetricsView) -> Copying {
        let nothing = Stream { read: Seq::empty(), written: Seq::empty() };
        Copying { relay, metrics, up: nothing, down: nothing }
    }

    /// Whether a direction has written what it read, in order and unaltered, but
    /// for the bytes whose write failed and ended it.
    pub open spec fn faithful(self, direction: Direction) -> bool {
        let stream = self.stream(direction);
        &&& stream.written.len() <= stream.read.len()
        &&& stream.written == stream.read.take(stream.written.len() as int)
        &&& !(self.relay.progress(direction) is Failed) ==> stream.written == stream.read
    }

    /// Whether the metrics have gained since `start` what was written, and the
    /// connection of the relay has where it was registered.
    pub open spec fn counts(self, start: MetricsView) -> bool {
        let id = self.relay.id;
        let up = self.up.written.len();
        let down = self.down.written.len();
        &&& self.metrics.counters.bytes_up == (start.counters.bytes_up + up) % 0x1_0000_0000_0000_0000
        &&& self.metrics.counters.bytes_down == (start.counters.bytes_down + down)
            % 0x1_0000_0000_0000_0000
        &&& start.registry.contains_key(id) ==> {
            &&& self.metrics.registry.contains_key(id)
            &&& self.metrics.registry[id].up == (start.registry[id].up + up)
                % 0x1_0000_0000_0000_0000
            &&& self.metrics.registry[id].down == (start.registry[id].down + down)
                % 0x1_0000_0000_0000_0000
        }
    }
}

/// Where a relay stands after `events`.
pub open spec fn copy_run(start: Copying, events: Seq<CopyEvent>) -> Copying
    decreases events.len(),
{
    if events.len() == 0 {
        start
    } else {
        copy_run(start, events.drop_last()).after(events.last())
    }
}

proof fn lemma_wrapping_sum(counter: u64, start: u64, len: nat, n: nat)
    requires
        n <= RELAY_BUF,
        counter == (start + len) % 0x1_0000_0000_0000_0000,
    ensures
        counter.wrapping_add(n as u64) == (start + (len + n)) % 0x1_0000_0000_0000_0000,
{
}

/// What a chunk that was read in a running direction does, step by step.
#[verifier::spinoff_prover]
proof fn lemma_chunk(state: Copying, direction: Direction, chunk: Seq<u8>, write: WriteView, now: u64)
    requires
        chunk.len() <= RELAY_BUF,
        state.relay.progress(direction) is Running,
    ensures
        ({
            let after = state.after(CopyEvent::Chunk(direction, chunk, write, now));
            let stream = state.stream(direction);
            if chunk.len() == 0 {
                &&& after.relay == state.relay.with_progress(direction, ProgressView::Finished)
                &&& after.metrics == state.metrics
                &&& after.up == state.up
                &&& after.down == state.down
            } else {
                &&& after.relay == state.relay.written(direction, write, now)
                &&& after.metrics == state.relay.counted(
                    state.metrics,
                    direction,
                    chunk.len() as u64,
                    write,
                )
                &&& (after.up, after.down) == {
                    let next = Stream {
                        read: stream.read + chunk,
                        written: if write is Done {
                            stream.written + chunk
                        } else {
                            stream.written
                        },
                    };
                    if direction == Direction::Up {
                        (next, state.down)
                    } else {
                        (state.up, next)
                    }
                }
            }
        }),
{
    let stream = state.stream(direction);
    assert(chunk.take(chunk.len() as int) =~= chunk);
    if chunk.len() == 0 {
        assert(stream.read + chunk =~= stream.read);
    }
}

#[verifier::spinoff_prover]
proof fn lemma_event_is_faithful(state: Copying, event: CopyEvent)
    requires
        event.fits(),
        state.faithful(Direction::Up),
        state.faithful(Direction::Down),
    ensures
        state.after(event).faithful(Direction::Up),
        state.after(event).faithful(Direction::Down),
        state.after(event).relay.id == state.relay.id,
{
    if let CopyEvent::Chunk(direction, chunk, write, now) = event {
        if state.relay.progress(direction) is Running {
            lemma_chunk(state, direction, chunk, write, now);
            let next = state.after(event).stream(direction);
            assert(next.written =~= next.read.take(next.written.len() as int));
        }
    }
}

#[verifier::spinoff_prover]
proof fn lemma_event_counts(state: Copying, event: CopyEvent, start: MetricsView)
    requires
        event.fits(),
        state.counts(start),
    ensures
        state.after(event).counts(start),
{
    if let CopyEvent::Chunk(direction, chunk, write, now) = event {
        if state.relay.progress(direction) is Running {
            lemma_chunk(state, direction, chunk, write, now);
            if chunk.len() > 0 && write is Done {
                lemma_chunk_counts(state, state.after(event), direction, chunk, start);
            }
        }
    }
}

#[verifier::spinoff_prover]
proof fn lemma_chunk_counts(
    state: Copying,
    after: Copying,
    direction: Direction,
    chunk: Seq<u8>,
    start: MetricsView,
)
    requires
        state.counts(start),
        0 < chunk.len() <= RELAY_BUF,
        after.relay.id == state.relay.id,
        after.metrics == state.relay.counted(
            state.metrics,
            direction,
            chunk.len() as u64,
            WriteView::Done,
        ),
        after.stream(direction).written == state.stream(direction).written + chunk,
        direction == Direction::Up ==> after.down == state.down,
        direction == Direction::Down ==> after.up == state.up,
    ensures
        after.counts(start),
{
    let len = state.stream(direction).written.len();
    let n = chunk.len();
    let id = state.relay.id;
    let counters = state.metrics.counters;
    let info = state.metrics.registry[id];
    assert(after.stream(direction).written.len() == len + n);
    match direction {
        Direction::Up => {
            lemma_wrapping_sum(counters.bytes_up, start.counters.bytes_up, len, n);
            if start.registry.contains_key(id) {
                lemma_wrapping_sum(info.up, start.registry[id].up, len, n);
            }
        },
        Direction::Down => {
            lemma_wrapping_sum(counters.bytes_down, start.counters.bytes_down, len, n);
            if start.registry.contains_key(id) {
                lemma_wrapping_sum(info.down, start.registry[id].down, len, n);
            }
        },
    }
}

/// Whatever happens to a relay, each direction writes what it read, in order and
/// unaltered, up to its end or to the first write that fails, and exactly the
/// bytes that were written are counted, as upload or as download.
pub proof fn relays_copy_faithfully(
    relay: TcpRelayView,
    metrics: MetricsView,
    events: Seq<CopyEvent>,
)
    requires
        relay.up is Running,
        relay.down is Running,
        forall|i: int| 0 <= i < events.len() ==> (#[trigger] events[i]).fits(),
    ensures
        copy_run(Copying::initial(relay, metrics), events).faithful(Direction::Up),
        copy_run(Copying::initial(relay, metrics), events).faithful(Direction::Down),
        copy_run(Copying::initial(relay, metrics), events).counts(metrics),
        copy_run(Copying::initial(relay, metrics), events).relay.id == relay.id,
    decreases events.len(),
{
    let start = Copying::initial(relay, metrics);
    if events.len() == 0 {
        assert(start.up.written =~= start.up.read.take(0));
    } else {
        let front = events.drop_last();
        assert forall|i: int| 0 <= i < front.len() implies (#[trigger] front[i]).fits() by {
            assert(front[i] == events[i]);
        }
        relays_copy_faithfully(relay, metrics, front);
        assert(events[events.len() - 1].fits());
        lemma_event_is_faithful(copy_run(start, front), events.last());
        lemma_event_counts(copy_run(start, front), events.last(), metrics);
    }
}

/// A direction ends well on EOF; on a failed read or write it ends with that
/// error, and with a timeout where a write was stuck for the idle window.
pub proof fn directions_end_as_they_failed(
    state: Copying,
    direction: Direction,
    chunk: Seq<u8>,
    error: IoFailureView,
    now: u64,
)
    requires
        state.relay.progress(direction) is Running,
        0 < chunk.len() <= RELAY_BUF,
    ensures
        state.after(
            CopyEvent::Chunk(direction, Seq::empty(), WriteView::Done, now),
        ).relay.progress(direction) == ProgressView::Finished,
        state.after(CopyEvent::ReadFailed(direction, error)).relay.progress(direction)
            == ProgressView::Failed(error),
        state.after(
            CopyEvent::Chunk(direction, chunk, WriteView::Failed(error), now),
        ).relay.progress(direction) == ProgressView::Failed(error),
        state.after(
            CopyEvent::Chunk(direction, chunk, WriteView::Stuck, now),
        ).relay.progress(direction) == ProgressView::Failed(stuck_write()),
        stuck_write().kind == IoErrorKind::TimedOut,
{
}

/// A direction that has ended stays as it ended, with the error that ended it,
/// and moves no more bytes.
pub proof fn ends_are_kept(start: Copying, event: CopyEvent, direction: Direction)
    requires
        !(start.relay.progress(direction) is Running),
    ensures
        start.after(event).relay.progress(direction) == start.relay.progress(direction),
        start.after(event).stream(direction) == start.stream(direction),
{
}

/// Of what a direction has read, all is to be written: neither less nor more.
/// Nothing read means the end, and so does an idle window of both directions.
pub proof fn reads_are_forwarded_whole(
    relay: TcpRelayView,
    direction: Direction,
    n: usize,
    now: u64,
)
    ensures
        n > 0 ==> relay.read(direction, ReadView::Bytes(n), now) == (relay, CopyStep::Forward(n)),
        n == 0 ==> relay.read(direction, ReadView::Bytes(n), now).1 == CopyStep::HalfClose
            && relay.read(direction, ReadView::Bytes(n), now).0.progress(direction) is Finished,
        now >= relay.last_activity + relay.idle ==> relay.read(direction, ReadView::Idle, now).1
            == CopyStep::HalfClose && relay.read(direction, ReadView::Idle, now).0.progress(
            direction,
        ) is Finished,
        relay.idle > 0 && now < relay.last_activity + relay.idle ==> relay.read(
            direction,
            ReadView::Idle,
            now,
        ) == (relay, CopyStep::KeepReading),
{
}

/// A write that succeeds keeps the direction going, marks the relay as active and
/// counts its bytes under the relay's connection and direction; any other counts
/// nothing and leaves the instant of the last activity.
pub proof fn writes_are_counted_once(
    relay: TcpRelayView,
    metrics: MetricsView,
    n: u64,
    error: IoFailureView,
    now: u64,
)
    ensures
        relay.counted(metrics, Direction::Up, n, WriteView::Done) == metrics.with_up(relay.id, n),
        relay.counted(metrics, Direction::Down, n, WriteView::Done) == metrics.with_down(
            relay.id,
            n,
        ),
        forall|direction: Direction|
            {
                &&& (#[trigger] relay.written(direction, WriteView::Done, now)).last_activity == now
                &&& relay.written(direction, WriteView::Done, now).up == relay.up
                &&& relay.written(direction, WriteView::Done, now).down == relay.down
                &&& relay.written(direction, WriteView::Done, now).id == relay.id
                &&& relay.written(direction, WriteView::Done, now).idle == relay.idle
                &&& relay.written(direction, WriteView::Failed(error), now).last_activity
                    == relay.last_activity
                &&& relay.written(direction, WriteView::Stuck, now).last_activity
                    == relay.last_activity
                &&& relay.counted(metrics, direction, n, WriteView::Failed(error)) == metrics
                &&& relay.counted(metrics, direction, n, WriteView::Stuck) == metrics
            },
{
}

/// A relay starts with both directions running and its own instant as the last
/// activity; it is over when neither runs, with the upload's error first.
pub proof fn relays_start_running_and_end_together(
    id: u64,
    idle: u64,
    now: u64,
    relay: TcpRelayView,
)
    ensures
        ({
            let start = TcpRelayView::initial(id, idle, now);
            &&& start.id == id && start.idle == idle && start.last_activity == now
            &&& start.up is Running && start.down is Running
        }),
        relay.ended() is None <==> relay.up is Running || relay.down is Running,
        relay.up is Finished && relay.down is Finished ==> relay.ended() == Some(
            Ok::<(), IoFailureView>(()),
        ),
        !(relay.down is Running) ==> (relay.up matches ProgressView::Failed(error)
            ==> relay.ended() == Some(Err::<(), IoFailureView>(error))),
        relay.up is Finished ==> (relay.down matches ProgressView::Failed(error)
            ==> relay.ended() == Some(Err::<(), IoFailureView>(error))),
{
}

/// How a direction ends is noted with it, and nothing else of the relay changes.
pub proof fn ends_are_noted(relay: TcpRelayView, error: IoFailureView, now: u64)
    ensures
        relay.read(Direction::Up, ReadView::Failed(error), now) == (
            TcpRelayView { up: ProgressView::Failed(error), ..relay },
            CopyStep::Stop,
        ),
        relay.read(Direction::Down, ReadView::Failed(error), now) == (
            TcpRelayView { down: ProgressView::Failed(error), ..relay },
            CopyStep::Stop,
        ),
        relay.read(Direction::Up, ReadView::Bytes(0), now).0 == (TcpRelayView {
            up: ProgressView::Finished,
            ..relay
        }),
        relay.read(Direction::Down, ReadView::Bytes(0), now).0 == (TcpRelayView {
            down: ProgressView::Finished,
            ..relay
        }),
        relay.written(Direction::Up, WriteView::Failed(error), now) == (TcpRelayView {
            up: ProgressView::Failed(error),
            ..relay
        }),
        relay.written(Direction::Down, WriteView::Failed(error), now) == (TcpRelayView {
            down: ProgressView::Failed(error),
            ..relay
        }),
        ({
            let stuck = IoFailureView {
                kind: IoErrorKind::TimedOut,
                message: "relay write timed out (peer not draining)"@,
            };
            &&& relay.written(Direction::Up, WriteView::Stuck, now) == (TcpRelayView {
                up: ProgressView::Failed(stuck),
                ..relay
            })
            &&& relay.written(Direction::Down, WriteView::Stuck, now) == (TcpRelayView {
                down: ProgressView::Failed(stuck),
                ..relay
            })
        }),
        relay.idle == 0 ==> relay.read(Direction::Up, ReadView::Idle, now) == relay.read(
            Direction::Up,
            ReadView::Bytes(0),
            now,
        ) && relay.read(Direction::Down, ReadView::Idle, now) == relay.read(
            Direction::Down,
            ReadView::Bytes(0),
            now,
        ),
{
}

} // verus!
