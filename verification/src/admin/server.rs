//! Unix-socket admin listener: how the socket is claimed, and what each attach
//! client is sent: Hello, then the replay, then periodic Stats and live Events.

use vstd::prelude::*;

use crate::admin::frame::{Frame, PROTO_VERSION};
use crate::error::{IoErrorKind, IoFailure};
use crate::metrics::{ConnInfo, Event, Snapshot};

verus! {

/// How often a client is pushed a fresh Stats frame, in milliseconds.
pub const PUSH_INTERVAL_MS: u64 = 250;

/// What comes next in claiming the admin socket.
///
/// Binding a fixed-path Unix socket has a hazard: a second process can unlink a
/// *live* server's socket and rebind the path, silently hijacking it (and then
/// deleting it on its own exit). So the path is probed, an advisory lock that the
/// kernel releases on process death is taken, and the path is probed again under
/// the lock, before anything is unlinked.
#[derive(Debug, Clone, Copy, PartialEq, Eq, Structural)]
pub enum ClaimStep {
    /// Create the directory of the socket where it is missing.
    EnsureParent,
    /// Connect to the path: never disturb a socket a live peer is serving.
    Probe,
    /// Take the lock without waiting for it.
    Lock,
    /// Connect to the path once more, now under the lock.
    Reprobe,
    /// Clear a stale socket off the path.
    Unlink,
    /// Bind the path.
    Bind,
    /// Restrict the socket to its owner.
    Restrict,
    /// The socket is claimed.
    Claimed,
}

/// How a step went.
#[derive(Debug, Clone, Copy, PartialEq, Eq, Structural)]
pub enum StepOutcome {
    /// It succeeded; for a probe: a peer accepted the connection.
    Done,
    /// It failed.
    Failed(IoErrorKind),
}

/// Why the socket is not claimed.
#[derive(Debug, Clone, Copy, PartialEq, Eq, Structural)]
pub enum ClaimError {
    /// A live instance serves it.
    AlreadyRunning,
    /// The step failed.
    StepFailed,
}

/// What a probe that failed with `kind` says: a stale or missing socket is safe
/// to bind; of any other endpoint nothing is known.
pub open spec fn probed_stale(kind: IoErrorKind) -> bool {
    kind == IoErrorKind::ConnectionRefused || kind == IoErrorKind::NotFound
}

/// What comes after `step` went as `outcome` says.
pub open spec fn claim_next(step: ClaimStep, outcome: StepOutcome) -> Result<ClaimStep, ClaimError> {
    match (step, outcome) {
        (ClaimStep::Probe, StepOutcome::Done) => Err(ClaimError::AlreadyRunning),
        (ClaimStep::Reprobe, StepOutcome::Done) => Err(ClaimError::AlreadyRunning),
        (ClaimStep::Probe, StepOutcome::Failed(kind)) => if probed_stale(kind) {
            Ok(ClaimStep::Lock)
        } else {
            Err(ClaimError::StepFailed)
        },
        (ClaimStep::Reprobe, StepOutcome::Failed(kind)) => if probed_stale(kind) {
            Ok(ClaimStep::Unlink)
        } else {
            Err(ClaimError::StepFailed)
        },
        (ClaimStep::EnsureParent, StepOutcome::Done) => Ok(ClaimStep::Probe),
        (ClaimStep::Lock, StepOutcome::Done) => Ok(ClaimStep::Reprobe),
        (ClaimStep::Unlink, StepOutcome::Done) => Ok(ClaimStep::Bind),
        (ClaimStep::Bind, StepOutcome::Done) => Ok(ClaimStep::Restrict),
        (ClaimStep::Restrict, StepOutcome::Done) => Ok(ClaimStep::Claimed),
        (ClaimStep::Claimed, StepOutcome::Done) => Ok(ClaimStep::Claimed),
        (_, StepOutcome::Failed(_)) => Err(ClaimError::StepFailed),
    }
}

/// Whether a live server answered a probe. A failure of which nothing is known is
/// an error, so that an endpoint that cannot be reasoned about is not clobbered.
pub fn socket_is_live(probe: StepOutcome) -> (live: Result<bool, ClaimError>)
    ensures
        live == match probe {
            StepOutcome::Done => Ok::<bool, ClaimError>(true),
            StepOutcome::Failed(kind) => if probed_stale(kind) {
                Ok::<bool, ClaimError>(false)
            } else {
                Err::<bool, ClaimError>(ClaimError::StepFailed)
            },
        },
{
    match probe {
        StepOutcome::Done => Ok(true),
        StepOutcome::Failed(IoErrorKind::ConnectionRefused) => Ok(false),
        StepOutcome::Failed(IoErrorKind::NotFound) => Ok(false),
        StepOutcome::Failed(_) => Err(ClaimError::StepFailed),
    }
}

/// Decide what comes after `step` in claiming the socket, which starts with
/// [`ClaimStep::EnsureParent`].
pub fn claim_socket(step: ClaimStep, outcome: StepOutcome) -> (next: Result<ClaimStep, ClaimError>)
    ensures
        next == claim_next(step, outcome),
{
    match step {
        ClaimStep::Probe => match socket_is_live(outcome) {
            Ok(live) => if live {
                Err(ClaimError::AlreadyRunning)
            } else {
                Ok(ClaimStep::Lock)
            },
            Err(error) => Err(error),
        },
        ClaimStep::Reprobe => match socket_is_live(outcome) {
            Ok(live) => if live {
                Err(ClaimError::AlreadyRunning)
            } else {
                Ok(ClaimStep::Unlink)
            },
            Err(error) => Err(error),
        },
        _ => match outcome {
            StepOutcome::Failed(_) => Err(ClaimError::StepFailed),
            StepOutcome::Done => match step {
                ClaimStep::EnsureParent => Ok(ClaimStep::Probe),
                ClaimStep::Lock => Ok(ClaimStep::Reprobe),
                ClaimStep::Unlink => Ok(ClaimStep::Bind),
                ClaimStep::Bind => Ok(ClaimStep::Restrict),
                _ => Ok(ClaimStep::Claimed),
            },
        },
    }
}

/// Where the outcomes of the steps so far lead.
pub open spec fn claim_run(outcomes: Seq<StepOutcome>) -> Result<ClaimStep, ClaimError>
    decreases outcomes.len(),
{
    if outcomes.len() == 0 {
        Ok(ClaimStep::EnsureParent)
    } else {
        match claim_run(outcomes.drop_last()) {
            Ok(step) => claim_next(step, outcomes.last()),
            Err(error) => Err(error),
        }
    }
}

/// How many steps come before `step`.
spec fn claim_position(step: ClaimStep) -> nat {
    match step {
        ClaimStep::EnsureParent => 0,
        ClaimStep::Probe => 1,
        ClaimStep::Lock => 2,
        ClaimStep::Reprobe => 3,
        ClaimStep::Unlink => 4,
        ClaimStep::Bind => 5,
        ClaimStep::Restrict => 6,
        ClaimStep::Claimed => 7,
    }
}

proof fn lemma_claim_run(outcomes: Seq<StepOutcome>)
    ensures
        claim_run(outcomes) matches Ok(step) ==> {
            &&& claim_position(step) <= outcomes.len()
            &&& claim_position(step) < 7 ==> claim_position(step) == outcomes.len()
            &&& claim_position(step) > 2 ==> outcomes[2] == StepOutcome::Done
            &&& claim_position(step) > 3 ==> (outcomes[3] matches StepOutcome::Failed(kind)
                && probed_stale(kind))
        },
    decreases outcomes.len(),
{
    if outcomes.len() > 0 {
        lemma_claim_run(outcomes.drop_last());
    }
}

/// Whatever happens, nothing is unlinked or bound before the lock is held and,
/// under it, a probe has found the socket stale or missing: a live server's
/// socket is never taken away.
pub proof fn a_live_socket_is_never_taken(outcomes: Seq<StepOutcome>)
    requires
        claim_run(outcomes) matches Ok(step) && (step is Unlink || step is Bind || step is Restrict
            || step is Claimed),
    ensures
        outcomes.len() >= 4,
        outcomes[2] == StepOutcome::Done,
        outcomes[3] matches StepOutcome::Failed(kind) && probed_stale(kind),
{
    lemma_claim_run(outcomes);
}

/// What lies at a path.
#[derive(Debug, Clone, Copy, PartialEq, Eq, Structural)]
pub enum PathEntry {
    Socket,
    Other,
    Missing,
}

/// What to do with what lies at the path of the socket.
#[derive(Debug, PartialEq, Eq)]
pub enum Unlink {
    /// Remove it.
    Remove,
    /// There is nothing to do.
    Nothing,
    /// Leave it alone and fail.
    Refuse(IoFailure),
}

/// Clear the path of a socket for binding it: only a socket is removed.
pub fn unlink_if_socket(path: &str, entry: PathEntry) -> (unlink: Unlink)
    ensures
        match entry {
            PathEntry::Socket => unlink == Unlink::Remove,
            PathEntry::Missing => unlink == Unlink::Nothing,
            PathEntry::Other => unlink matches Unlink::Refuse(failure) && failure.kind
                == IoErrorKind::AlreadyExists && failure.message@ == path@
                + " exists and is not a socket"@,
        },
{
    match entry {
        PathEntry::Socket => Unlink::Remove,
        PathEntry::Missing => Unlink::Nothing,
        PathEntry::Other => {
            let mut message: String = path.to_owned();
            message.append(" exists and is not a socket");
            Unlink::Refuse(IoFailure { kind: IoErrorKind::AlreadyExists, message })
        },
    }
}

/// Path of the sidecar lock file for `socket_path` (`<socket>.lock`).
pub fn lock_path_for(socket_path: &str) -> (path: String)
    ensures
        path@ == socket_path@ + ".lock"@,
{
    let mut path: String = socket_path.to_owned();
    path.append(".lock");
    path
}

/// The failure to report where the lock at `lock_path` could not be taken: that
/// another instance holds it, if the error is of that `kind`; any other error is
/// passed on as it is.
pub fn lock_failure(lock_path: &str, kind: IoErrorKind) -> (failure: Option<IoFailure>)
    ensures
        failure is Some <==> kind == IoErrorKind::WouldBlock,
        failure matches Some(failure) ==> failure.kind == IoErrorKind::WouldBlock
            && failure.message@ == "another next-socks5 instance already holds "@ + lock_path@,
{
    match kind {
        IoErrorKind::WouldBlock => {
            let mut message: String = "another next-socks5 instance already holds ".to_owned();
            message.append(lock_path);
            Some(IoFailure { kind: IoErrorKind::WouldBlock, message })
        },
        _ => None,
    }
}

/// Error returned when a live instance already owns the admin socket.
pub fn already_running(socket_path: &str) -> (failure: IoFailure)
    ensures
        failure.kind == IoErrorKind::AddrInUse,
        failure.message@ == "admin socket "@ + socket_path@
            + " is already served by a live next-socks5 instance"@,
{
    let mut message: String = "admin socket ".to_owned();
    message.append(socket_path);
    message.append(" is already served by a live next-socks5 instance");
    IoFailure { kind: IoErrorKind::AddrInUse, message }
}

/// The frames that a client is sent first: the handshake, then the replay.
pub fn opening_frames(listen_addr: Option<String>, replay: Vec<Event>) -> (frames: Vec<Frame>)
    ensures
        frames@.len() == 1 + replay@.len(),
        frames@[0] == (Frame::Hello { proto: PROTO_VERSION, listen_addr }),
        forall|i: int|
            0 <= i < replay@.len() ==> #[trigger] frames@[i + 1] == Frame::Event(replay@[i]),
{
    let mut frames: Vec<Frame> = Vec::new();
    frames.push(Frame::Hello { proto: PROTO_VERSION, listen_addr });
    let mut i: usize = 0;
    while i < replay.len()
        invariant
            i <= replay.len(),
            frames@.len() == 1 + i,
            frames@[0] == (Frame::Hello { proto: PROTO_VERSION, listen_addr }),
            forall|j: int| 0 <= j < i ==> #[trigger] frames@[j + 1] == Frame::Event(replay@[j]),
        decreases replay.len() - i,
    {
        frames.push(Frame::Event(replay[i].clone()));
        i += 1;
    }
    frames
}

/// What an attached client's task is told.
#[derive(Debug, PartialEq, Eq)]
pub enum ClientInput {
    /// Another push interval has passed; this is how things stand.
    Tick(Snapshot, Vec<ConnInfo>),
    /// An event was sent to the event bus.
    Event(Event),
    /// The task fell behind the event bus and missed events.
    Lagged,
    /// The event bus is gone.
    Closed,
    /// The shutdown channel says so.
    Stop,
}

/// What an attached client's task does.
#[derive(Debug, PartialEq, Eq)]
pub enum ClientOutput {
    /// Write the frame, and end where that fails.
    Write(Frame),
    /// Go on.
    Skip,
    /// End.
    End,
}

/// Decide what an attached client is sent.
pub fn handle_client(input: ClientInput) -> (output: ClientOutput)
    ensures
        output == match input {
            ClientInput::Tick(snapshot, connections) => ClientOutput::Write(
                Frame::Stats { snapshot, connections },
            ),
            ClientInput::Event(event) => ClientOutput::Write(Frame::Event(event)),
            ClientInput::Lagged => ClientOutput::Skip,
            ClientInput::Closed => ClientOutput::End,
            ClientInput::Stop => ClientOutput::End,
        },
{
    match input {
        ClientInput::Tick(snapshot, connections) => ClientOutput::Write(
            Frame::Stats { snapshot, connections },
        ),
        ClientInput::Event(event) => ClientOutput::Write(Frame::Event(event)),
        ClientInput::Lagged => ClientOutput::Skip,
        ClientInput::Closed => ClientOutput::End,
        ClientInput::Stop => ClientOutput::End,
    }
}

/// A free socket is claimed: where both probes find it stale or missing and every
/// other step succeeds, the last step leaves it claimed.
pub proof fn a_free_socket_is_claimed(first: IoErrorKind, second: IoErrorKind)
    requires
        first == IoErrorKind::ConnectionRefused || first == IoErrorKind::NotFound,
        second == IoErrorKind::ConnectionRefused || second == IoErrorKind::NotFound,
    ensures
        claim_run(
            seq![
                StepOutcome::Done,
                StepOutcome::Failed(first),
                StepOutcome::Done,
                StepOutcome::Failed(second),
                StepOutcome::Done,
                StepOutcome::Done,
                StepOutcome::Done,
            ],
        ) == Ok::<ClaimStep, ClaimError>(ClaimStep::Claimed),
{
    let outcomes = seq![
        StepOutcome::Done,
        StepOutcome::Failed(first),
        StepOutcome::Done,
        StepOutcome::Failed(second),
        StepOutcome::Done,
        StepOutcome::Done,
        StepOutcome::Done,
    ];
    reveal_with_fuel(claim_run, 8);
    assert(outcomes.drop_last() =~= outcomes.take(6));
    assert(outcomes.take(6).drop_last() =~= outcomes.take(5));
    assert(outcomes.take(5).drop_last() =~= outcomes.take(4));
    assert(outcomes.take(4).drop_last() =~= outcomes.take(3));
    assert(outcomes.take(3).drop_last() =~= outcomes.take(2));
    assert(outcomes.take(2).drop_last() =~= outcomes.take(1));
}

/// A probe that a peer answers says that an instance is running; only a probe may
/// fail, and only as a stale or missing socket does; any other failure ends the
/// claim.
pub proof fn claims_end_on_failures(step: ClaimStep, kind: IoErrorKind)
    ensures
        claim_next(ClaimStep::Probe, StepOutcome::Done) == Err::<ClaimStep, ClaimError>(
            ClaimError::AlreadyRunning,
        ),
        claim_next(ClaimStep::Reprobe, StepOutcome::Done) == Err::<ClaimStep, ClaimError>(
            ClaimError::AlreadyRunning,
        ),
        claim_next(step, StepOutcome::Failed(kind)) is Ok <==> (step is Probe || step is Reprobe)
            && (kind is ConnectionRefused || kind is NotFound),
        claim_next(step, StepOutcome::Failed(kind)) matches Err(error) ==> error
            == ClaimError::StepFailed,
{
}

} // verus!
