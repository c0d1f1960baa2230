//! The course of one CONNECT request, from the search for a connection to the
//! end of its relay.

use vstd::prelude::*;

use crate::error::Socks5Error;
use crate::metrics::{ConnKind, Event, EventView, Metrics, MetricsView};
use crate::net::{IpAddr, Ipv4Addr, SocketAddr};
use crate::protocol::address::{Address, AddressView};
use crate::protocol::reply::{failure_bytes, failure_reply, names_endpoint, reply_bytes, success_replies_name_the_endpoint, success_reply, REP_SUCCEEDED};
use crate::server::connect::{address_of, address_to_string, bind_address, establish_message, establish_reply, failure_message, failure_of, target_text, EstablishError, EstablishErrorView};

verus! {

/// Where a CONNECT request stands.
#[derive(Debug, PartialEq, Eq)]
pub enum Stage {
    /// A connection to the target is being established.
    Establishing,
    /// The failure reply is being written.
    Refusing(Socks5Error, String),
    /// The success reply is being written.
    Replying,
    /// The client's pipelined payload is being written upstream.
    Sending(u64),
    /// Both directions are being relayed.
    Relaying(u64),
    /// The request is over.
    Over,
}

/// What a [`Stage`] stands for.
pub enum StageView {
    Establishing,
    Refusing(Socks5Error, Seq<char>),
    Replying,
    Sending(u64),
    Relaying(u64),
    Over,
}

/// One CONNECT request.
pub struct ConnectSession {
    peer: SocketAddr,
    target: Address,
    initial_len: u64,
    stage: Stage,
}

/// What a [`ConnectSession`] stands for.
#[verifier::ext_equal]
pub struct SessionView {
    /// The client.
    pub peer: SocketAddr,
    /// Where it wants to be connected to.
    pub target: AddressView,
    /// How many bytes it pipelined after its request.
    pub initial_len: u64,
    pub stage: StageView,
}

/// What has happened to a CONNECT request.
#[derive(Debug, PartialEq, Eq)]
pub enum Input {
    /// A connection was established; this is its local address, where known.
    Established(Option<SocketAddr>),
    /// No connection was established, this many milliseconds after the request.
    NotEstablished(EstablishError, u128),
    /// The reply was written, or could not be.
    Replied(bool),
    /// The pipelined payload was written upstream, or could not be.
    InitialSent(bool),
    /// The relay has ended: both sides closed, it idled out, or shutdown was
    /// requested.
    RelayEnded,
}

/// What an [`Input`] stands for.
pub enum InputView {
    Established(Option<SocketAddr>),
    NotEstablished(EstablishErrorView, nat),
    Replied(bool),
    InitialSent(bool),
    RelayEnded,
}

/// What to do for a CONNECT request.
#[derive(Debug, PartialEq, Eq)]
pub enum Output {
    /// Write this reply to the client.
    Reply(Vec<u8>),
    /// Send the event, then write the pipelined payload upstream.
    SendInitial(Event),
    /// Send the event, if any, then relay both directions.
    Relay(Option<Event>),
    /// Send the event; the request is over.
    Finish(Event),
    /// The request is over.
    End,
}

/// What an [`Output`] stands for.
pub enum OutputView {
    Reply(Seq<u8>),
    SendInitial(EventView),
    Relay(Option<EventView>),
    Finish(EventView),
    End,
}

impl View for Stage {
    type V = StageView;

    open spec fn view(&self) -> StageView {
        match self {
            Stage::Establishing => StageView::Establishing,
            Stage::Refusing(error, msg) => StageView::Refusing(*error, msg@),
            Stage::Replying => StageView::Replying,
            Stage::Sending(id) => StageView::Sending(*id),
            Stage::Relaying(id) => StageView::Relaying(*id),
            Stage::Over => StageView::Over,
        }
    }
}

impl View for ConnectSession {
    type V = SessionView;

    closed spec fn view(&self) -> SessionView {
        SessionView {
            peer: self.peer,
            target: self.target@,
            initial_len: self.initial_len,
            stage: self.stage@,
        }
    }
}

impl View for Input {
    type V = InputView;

    open spec fn view(&self) -> InputView {
        match self {
            Input::Established(local) => InputView::Established(*local),
            Input::NotEstablished(error, elapsed_ms) => InputView::NotEstablished(
                error@,
                *elapsed_ms as nat,
            ),
            Input::Replied(ok) => InputView::Replied(*ok),
            Input::InitialSent(ok) => InputView::InitialSent(*ok),
            Input::RelayEnded => InputView::RelayEnded,
        }
    }
}

impl View for Output {
    type V = OutputView;

    open spec fn view(&self) -> OutputView {
        match self {
            Output::Reply(reply) => OutputView::Reply(reply@),
            Output::SendInitial(event) => OutputView::SendInitial(event@),
            Output::Relay(event) => OutputView::Relay(
                match event {
                    Some(event) => Some(event@),
                    None => None,
                },
            ),
            Output::Finish(event) => OutputView::Finish(event@),
            Output::End => OutputView::End,
        }
    }
}

impl SessionView {
    /// The same request at another stage.
    pub open spec fn at(self, stage: StageView) -> SessionView {
        SessionView { stage, ..self }
    }

    /// The event that announces the relay under `id`.
    pub open spec fn connect_event(self, id: u64) -> EventView {
        EventView::Connect {
            id,
            src: self.peer,
            target: target_text(self.target),
            kind: ConnKind::Connect,
        }
    }

    /// What follows `input`: the request and the metrics after it, and what to
    /// do. An input that the stage does not wait for ends the request's part
    /// without effect.
    pub open spec fn next(self, metrics: MetricsView, input: InputView) -> (
        SessionView,
        MetricsView,
        OutputView,
    ) {
        match (self.stage, input) {
            (StageView::Establishing, InputView::Established(local)) => {
                // The upstream's local address is the BND address.
                let bind = match local {
                    Some(addr) => address_of(addr),
                    None => AddressView::V4(Ipv4Addr { bits: 0 }, 0),
                };
                (
                    self.at(StageView::Replying),
                    metrics,
                    OutputView::Reply(reply_bytes(REP_SUCCEEDED, bind)),
                )
            },
            (StageView::Establishing, InputView::NotEstablished(error, elapsed_ms)) => {
                let reply = establish_reply(error);
                let msg = establish_message(self.target, error, elapsed_ms);
                (
                    self.at(StageView::Refusing(reply, msg)),
                    metrics,
                    OutputView::Reply(failure_bytes(reply)),
                )
            },
            (StageView::Refusing(error, msg), InputView::Replied(_)) => (
                self.at(StageView::Over),
                metrics.with_error(error.code()),
                OutputView::Finish(EventView::Error { code: error.code(), msg }),
            ),
            (StageView::Replying, InputView::Replied(ok)) => if !ok {
                (self.at(StageView::Over), metrics, OutputView::End)
            } else {
                // The connection is registered only after a successful reply.
                let id = metrics.next_id;
                let registered = metrics.registered(
                    self.peer,
                    target_text(self.target),
                    ConnKind::Connect,
                );
                if self.initial_len > 0 {
                    (
                        self.at(StageView::Sending(id)),
                        registered,
                        OutputView::SendInitial(self.connect_event(id)),
                    )
                } else {
                    (
                        self.at(StageView::Relaying(id)),
                        registered,
                        OutputView::Relay(Some(self.connect_event(id))),
                    )
                }
            },
            (StageView::Sending(id), InputView::InitialSent(ok)) => if ok {
                (
                    self.at(StageView::Relaying(id)),
                    metrics.with_up(id, self.initial_len),
                    OutputView::Relay(None),
                )
            } else {
                (
                    self.at(StageView::Over),
                    metrics.with_success().unregistered(id),
                    OutputView::Finish(EventView::Closed { id }),
                )
            },
            (StageView::Relaying(id), InputView::RelayEnded) => (
                self.at(StageView::Over),
                metrics.with_success().unregistered(id),
                OutputView::Finish(EventView::Closed { id }),
            ),
            _ => (self, metrics, OutputView::End),
        }
    }
}

impl ConnectSession {
    /// Start to serve the request of `peer` to be connected to `target`, behind
    /// which it pipelined `initial_len` bytes.
    pub fn new(peer: SocketAddr, target: Address, initial_len: u64) -> (session: ConnectSession)
        ensures
            session@ == (SessionView {
                peer,
                target: target@,
                initial_len,
                stage: StageView::Establishing,
            }),
    {
        ConnectSession { peer, target, initial_len, stage: Stage::Establishing }
    }

    /// Count the request as served, drop it from the registry, and finish.
    fn close(&mut self, metrics: &mut Metrics, id: u64) -> (output: Output)
        ensures
            final(self)@ == old(self)@.at(StageView::Over),
            final(metrics)@ == old(metrics)@.with_success().unregistered(id),
            output@ == OutputView::Finish(EventView::Closed { id }),
            old(metrics).wf() ==> final(metrics).wf(),
    {
        self.stage = Stage::Over;
        metrics.record_success();
        metrics.unregister(id);
        Output::Finish(Event::Closed { id })
    }

    /// Take in what has happened, and decide what to do.
    pub fn next(&mut self, metrics: &mut Metrics, input: Input) -> (output: Output)
        ensures
            (final(self)@, final(metrics)@, output@) == old(self)@.next(old(metrics)@, input@),
            old(metrics).wf() ==> final(metrics).wf(),
    {
        match input {
            Input::Established(local) => {
                if let Stage::Establishing = &self.stage {
                    self.stage = Stage::Replying;
                    return Output::Reply(success_reply(&bind_address(local)));
                }
                Output::End
            },
            Input::NotEstablished(error, elapsed_ms) => {
                if let Stage::Establishing = &self.stage {
                    let reply: Socks5Error = failure_of(&error);
                    let msg: String = failure_message(&self.target, &error, elapsed_ms);
                    self.stage = Stage::Refusing(reply, msg);
                    return Output::Reply(failure_reply(reply));
                }
                Output::End
            },
            Input::Replied(ok) => self.replied(metrics, ok),
            Input::InitialSent(ok) => {
                if let Stage::Sending(id) = &self.stage {
                    let id: u64 = *id;
                    if ok {
                        metrics.add_up(id, self.initial_len);
                        self.stage = Stage::Relaying(id);
                        return Output::Relay(None);
                    }
                    return self.close(metrics, id);
                }
                Output::End
            },
            Input::RelayEnded => {
                if let Stage::Relaying(id) = &self.stage {
                    let id: u64 = *id;
                    return self.close(metrics, id);
                }
                Output::End
            },
        }
    }

    fn replied(&mut self, metrics: &mut Metrics, ok: bool) -> (output: Output)
        ensures
            (final(self)@, final(metrics)@, output@) == old(self)@.next(
                old(metrics)@,
                InputView::Replied(ok),
            ),
            old(metrics).wf() ==> final(metrics).wf(),
    {
        match &self.stage {
            Stage::Refusing(error, msg) => {
                let code: u8 = error.reply_code();
                let event: Event = Event::Error { code, msg: msg.clone() };
                metrics.record_error(code);
                self.stage = Stage::Over;
                Output::Finish(event)
            },
            Stage::Replying => {
                if !ok {
                    self.stage = Stage::Over;
                    return Output::End;
                }
                let name: String = address_to_string(&self.target);
                let id: u64 = metrics.register(self.peer, name.clone(), ConnKind::Connect);
                let event: Event = Event::Connect {
                    id,
                    src: self.peer,
                    target: name,
                    kind: ConnKind::Connect,
                };
                if self.initial_len > 0 {
                    self.stage = Stage::Sending(id);
                    Output::SendInitial(event)
                } else {
                    self.stage = Stage::Relaying(id);
                    Output::Relay(Some(event))
                }
            },
            _ => Output::End,
        }
    }
}

/// Where a request and the metrics stand after `inputs`.
pub open spec fn session_run(
    session: SessionView,
    metrics: MetricsView,
    inputs: Seq<InputView>,
) -> (SessionView, MetricsView)
    decreases inputs.len(),
{
    if inputs.len() == 0 {
        (session, metrics)
    } else {
        let (before, counted) = session_run(session, metrics, inputs.drop_last());
        let (after, recounted, _) = before.next(counted, inputs.last());
        (after, recounted)
    }
}

/// The id under which a request is registered, while it is.
pub open spec fn registered_id(stage: StageView) -> Option<u64> {
    match stage {
        StageView::Sending(id) => Some(id),
        StageView::Relaying(id) => Some(id),
        _ => None,
    }
}

/// Whatever happens to a request, it is registered exactly while it is relayed
/// (its pipelined payload included), and once it is over the registry and the
/// active count are as they were.
pub proof fn requests_leave_no_trace(
    peer: SocketAddr,
    target: AddressView,
    initial_len: u64,
    metrics: MetricsView,
    inputs: Seq<InputView>,
)
    requires
        !metrics.registry.contains_key(metrics.next_id),
    ensures
        ({
            let start = SessionView { peer, target, initial_len, stage: StageView::Establishing };
            let (session, after) = session_run(start, metrics, inputs);
            match registered_id(session.stage) {
                Some(id) => {
                    &&& id == metrics.next_id
                    &&& after.registry.contains_key(id)
                    &&& after.registry.remove(id) == metrics.registry
                    &&& after.counters.active_conns == metrics.counters.active_conns.wrapping_add(1)
                },
                None => {
                    &&& after.registry == metrics.registry
                    &&& after.counters.active_conns == metrics.counters.active_conns
                },
            }
        }),
    decreases inputs.len(),
{
    let start = SessionView { peer, target, initial_len, stage: StageView::Establishing };
    if inputs.len() > 0 {
        requests_leave_no_trace(peer, target, initial_len, metrics, inputs.drop_last());
        lemma_run_keeps_next_id(start, metrics, inputs.drop_last());
        let (before, counted) = session_run(start, metrics, inputs.drop_last());
        let (after, recounted, _) = before.next(counted, inputs.last());
        if let Some(id) = registered_id(before.stage) {
            if registered_id(after.stage) is Some {
                assert(recounted.registry.remove(id) =~= counted.registry.remove(id));
            }
        } else if let Some(id) = registered_id(after.stage) {
            assert(recounted.registry.remove(id) =~= counted.registry);
        }
    }
}

/// How far a request has come, in the order of its stages.
spec fn progress(stage: StageView) -> nat {
    match stage {
        StageView::Establishing => 0,
        StageView::Refusing(_, _) => 1,
        StageView::Replying => 1,
        StageView::Sending(_) => 2,
        StageView::Relaying(_) => 3,
        StageView::Over => 4,
    }
}

proof fn lemma_run_keeps_next_id(session: SessionView, metrics: MetricsView, inputs: Seq<InputView>)
    requires
        session.stage is Establishing,
    ensures
        progress(session_run(session, metrics, inputs).0.stage) < 2 ==> session_run(
            session,
            metrics,
            inputs,
        ).1.next_id == metrics.next_id,
    decreases inputs.len(),
{
    if inputs.len() > 0 {
        lemma_run_keeps_next_id(session, metrics, inputs.drop_last());
    }
}

/// A request that no connection was established for is answered by the failure
/// reply of its error; whether or not that was written, the failure is counted
/// and reported under the same code, and the request is over.
pub proof fn refused_requests_are_answered(
    session: SessionView,
    metrics: MetricsView,
    error: EstablishErrorView,
    elapsed_ms: nat,
    written: bool,
)
    requires
        session.stage is Establishing,
    ensures
        ({
            let reply = establish_reply(error);
            let (refused, same, answer) = session.next(
                metrics,
                InputView::NotEstablished(error, elapsed_ms),
            );
            let (over, counted, report) = refused.next(same, InputView::Replied(written));
            &&& answer == OutputView::Reply(failure_bytes(reply))
            &&& over.stage is Over
            &&& counted == metrics.with_error(reply.code())
            &&& report == OutputView::Finish(
                EventView::Error {
                    code: reply.code(),
                    msg: establish_message(session.target, error, elapsed_ms),
                },
            )
        }),
{
}

/// A relay begins only after the success reply was written, and a request never
/// goes back to an earlier stage.
pub proof fn relays_follow_the_reply(session: SessionView, metrics: MetricsView, input: InputView)
    ensures
        ({
            let (after, _, output) = session.next(metrics, input);
            &&& registered_id(session.stage) is None && registered_id(after.stage) is Some
                ==> session.stage is Replying && input == InputView::Replied(true)
            &&& output is Relay || output is SendInitial ==> registered_id(after.stage) is Some
            &&& session.stage is Over ==> after == session && output is End
        }),
{
}

/// A request for which a connection was established is answered by success with
/// the connection's local IP address and port, or zero where they are not known;
/// nothing is counted yet.
pub proof fn established_requests_are_answered(
    session: SessionView,
    metrics: MetricsView,
    local: Option<SocketAddr>,
)
    requires
        session.stage is Establishing,
    ensures
        ({
            let (after, same, answer) = session.next(metrics, InputView::Established(local));
            let (ip, port) = match local {
                Some(SocketAddr::V4(addr)) => (IpAddr::V4(addr.ip), addr.port),
                Some(SocketAddr::V6(addr)) => (IpAddr::V6(addr.ip), addr.port),
                None => (IpAddr::V4(Ipv4Addr { bits: 0 }), 0u16),
            };
            &&& answer matches OutputView::Reply(reply) && names_endpoint(reply, ip, port)
            &&& after == (SessionView { stage: StageView::Replying, ..session })
            &&& same == metrics
        }),
{
    let (ip, port) = match local {
        Some(SocketAddr::V4(addr)) => (IpAddr::V4(addr.ip), addr.port),
        Some(SocketAddr::V6(addr)) => (IpAddr::V6(addr.ip), addr.port),
        None => (IpAddr::V4(Ipv4Addr { bits: 0 }), 0u16),
    };
    success_replies_name_the_endpoint(ip, port);
}

/// Once it was answered, a request is registered under the next id with its client
/// and its target, and announced as such; its pipelined payload is sent first,
/// where there is one, and counted as upload; then both directions are relayed.
pub proof fn answered_requests_are_relayed(session: SessionView, metrics: MetricsView)
    requires
        session.stage is Replying,
    ensures
        ({
            let id = metrics.next_id;
            let event = EventView::Connect {
                id,
                src: session.peer,
                target: target_text(session.target),
                kind: ConnKind::Connect,
            };
            let registered = metrics.registered(
                session.peer,
                target_text(session.target),
                ConnKind::Connect,
            );
            let (first, counted, output) = session.next(metrics, InputView::Replied(true));
            let (second, recounted, then) = first.next(counted, InputView::InitialSent(true));
            &&& counted == registered
            &&& session.initial_len == 0 ==> output == OutputView::Relay(Some(event))
                && first.stage == StageView::Relaying(id)
            &&& session.initial_len > 0 ==> {
                &&& output == OutputView::SendInitial(event)
                &&& then == OutputView::Relay(None)
                &&& recounted == registered.with_up(id, session.initial_len)
                &&& second.stage == StageView::Relaying(id)
            }
        }),
{
}

/// When the relay has ended, or the pipelined payload could not be sent, the
/// request counts as served, leaves the registry, and is announced as closed.
pub proof fn relayed_requests_are_closed(session: SessionView, metrics: MetricsView, id: u64)
    requires
        session.stage == StageView::Relaying(id) || session.stage == StageView::Sending(id),
    ensures
        ({
            let input = if session.stage is Relaying {
                InputView::RelayEnded
            } else {
                InputView::InitialSent(false)
            };
            let (after, counted, output) = session.next(metrics, input);
            &&& after.stage is Over
            &&& counted == metrics.with_success().unregistered(id)
            &&& output == OutputView::Finish(EventView::Closed { id })
        }),
{
}

/// A request whose reply was not written is dropped: nothing is counted or
/// announced.
pub proof fn unanswered_requests_are_dropped(session: SessionView, metrics: MetricsView)
    requires
        session.stage is Replying,
    ensures
        session.next(metrics, InputView::Replied(false)) == (
            SessionView { stage: StageView::Over, ..session },
            metrics,
            OutputView::End,
        ),
{
}

} // verus!
