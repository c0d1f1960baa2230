//! Attach client: keep what the incoming frames say as a `RemoteState`, and
//! forward events for the TUI to consume.

use vstd::prelude::*;

use crate::admin::frame::{Frame, FrameError, PROTO_VERSION};
use crate::metrics::{conn_views, ConnInfo, ConnInfoView, Event, Snapshot, SnapshotView};

verus! {

/// Latest decoded stats, updated as frames come in and read by the TUI.
pub struct RemoteState {
    snapshot: Snapshot,
    connections: Vec<ConnInfo>,
}

/// What a [`RemoteState`] stands for.
#[verifier::ext_equal]
pub struct RemoteStateView {
    pub snapshot: SnapshotView,
    pub connections: Seq<ConnInfoView>,
}

/// What follows a read from the server.
#[derive(Debug, PartialEq, Eq)]
pub enum DecodeStep {
    /// Read on.
    Continue,
    /// Send the event to the local event bus and read on.
    Forward(Event),
    /// The connection is lost: note that, request shutdown, and stop.
    Lost,
}

/// Why a server is not attached to.
#[derive(Debug, Clone, Copy, PartialEq, Eq, Structural)]
pub enum AttachError {
    /// It speaks another version of the protocol.
    Version(u16),
    /// Its first frame is no handshake.
    NotHello,
}

impl View for RemoteState {
    type V = RemoteStateView;

    closed spec fn view(&self) -> RemoteStateView {
        RemoteStateView { snapshot: self.snapshot@, connections: conn_views(self.connections@) }
    }
}

/// Copy a list of connections.
fn copy_connections(list: &Vec<ConnInfo>) -> (copy: Vec<ConnInfo>)
    ensures
        copy@ == list@,
{
    let mut copy: Vec<ConnInfo> = Vec::new();
    let mut i: usize = 0;
    while i < list.len()
        invariant
            i <= list.len(),
            copy@ == list@.take(i as int),
        decreases list.len() - i,
    {
        copy.push(list[i].clone());
        i += 1;
        assert(copy@ =~= list@.take(i as int));
    }
    assert(list@.take(list@.len() as int) =~= list@);
    copy
}

impl RemoteState {
    /// Nothing is known yet: zeroed counters and no connections.
    pub fn new() -> (state: RemoteState)
        ensures
            state@ == (RemoteStateView {
                snapshot: SnapshotView::zero(),
                connections: Seq::empty(),
            }),
    {
        let state = RemoteState { snapshot: Snapshot::default(), connections: Vec::new() };
        assert(state@.connections =~= Seq::<ConnInfoView>::empty());
        state
    }

    /// The latest counters.
    pub fn snapshot(&self) -> (snapshot: Snapshot)
        ensures
            snapshot@ == self@.snapshot,
    {
        self.snapshot
    }

    /// The latest connections.
    pub fn connections(&self) -> (list: Vec<ConnInfo>)
        ensures
            conn_views(list@) == self@.connections,
    {
        copy_connections(&self.connections)
    }
}

impl Default for RemoteState {
    fn default() -> (state: RemoteState)
        ensures
            state@ == (RemoteStateView {
                snapshot: SnapshotView::zero(),
                connections: Seq::empty(),
            }),
    {
        RemoteState::new()
    }
}

/// One turn of the decode loop: take in what was read from the server. Any
/// failure, end of stream included, ends the loop.
pub fn decode_loop(state: &mut RemoteState, read: Result<Frame, FrameError>) -> (step: DecodeStep)
    ensures
        match read {
            Ok(Frame::Stats { snapshot, connections }) => step == DecodeStep::Continue
                && final(state)@ == (RemoteStateView {
                snapshot: snapshot@,
                connections: conn_views(connections@),
            }),
            Ok(Frame::Event(event)) => step == DecodeStep::Forward(event) && final(state)@ == old(
                state,
            )@,
            // Unexpected mid-stream Hello: ignored.
            Ok(Frame::Hello { .. }) => step == DecodeStep::Continue && final(state)@ == old(state)@,
            Err(_) => step == DecodeStep::Lost && final(state)@ == old(state)@,
        },
{
    match read {
        Ok(Frame::Stats { snapshot, connections }) => {
            state.snapshot = snapshot;
            state.connections = connections;
            DecodeStep::Continue
        },
        Ok(Frame::Event(event)) => DecodeStep::Forward(event),
        Ok(Frame::Hello { .. }) => DecodeStep::Continue,
        Err(_) => DecodeStep::Lost,
    }
}

/// Validate the first frame of a server: it must be a Hello of this protocol
/// version. Returns the address that the server listens on.
pub fn attach(first: Frame) -> (result: Result<Option<String>, AttachError>)
    ensures
        match first {
            Frame::Hello { proto, listen_addr } => result == (if proto == PROTO_VERSION {
                Ok::<Option<String>, AttachError>(listen_addr)
            } else {
                Err::<Option<String>, AttachError>(AttachError::Version(proto))
            }),
            _ => result == Err::<Option<String>, AttachError>(AttachError::NotHello),
        },
{
    match first {
        Frame::Hello { proto, listen_addr } => if proto == PROTO_VERSION {
            Ok(listen_addr)
        } else {
            Err(AttachError::Version(proto))
        },
        _ => Err(AttachError::NotHello),
    }
}

} // verus!
