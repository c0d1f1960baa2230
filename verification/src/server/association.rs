//! The course of one UDP association, from the request to its end.

use vstd::prelude::*;

use crate::config::AdvertiseHost;
use crate::error::Socks5Error;
use crate::metrics::{ConnKind, Event, EventView, Metrics, MetricsView};
use crate::net::{IpAddr, SocketAddr};
use crate::protocol::address::Address;
use crate::protocol::reply::{failure_bytes, failure_reply, names_endpoint, reply_bytes, success_replies_name_the_endpoint, success_reply, REP_SUCCEEDED};
use crate::server::connect::{address_of, socket_addr_to_address};
use crate::server::udp::{advertisable, advertise_answer, advertise_plan, first_advertisable, relay_bind_ip, Advertise, UdpAction, UdpRelay};

verus! {

/// Where a UDP association stands.
#[derive(Debug, PartialEq, Eq)]
pub enum Stage {
    /// The local address of the control connection is being asked for.
    Locating,
    /// A relay socket is being bound.
    Binding,
    /// The host to advertise is being resolved for the socket bound here.
    Advertising(String, SocketAddr),
    /// The failure reply is being written; the failure is then counted or not,
    /// and reported.
    Refusing(Socks5Error, bool, String),
    /// The success reply is being written.
    Replying,
    /// Datagrams are being relayed.
    Relaying(u64),
    /// The association is over.
    Over,
}

/// What a [`Stage`] stands for.
pub enum StageView {
    Locating,
    Binding,
    Advertising(Seq<char>, SocketAddr),
    Refusing(Socks5Error, bool, Seq<char>),
    Replying,
    Relaying(u64),
    Over,
}

/// One UDP association.
pub struct Association {
    peer: SocketAddr,
    advertise: Option<AdvertiseHost>,
    stage: Stage,
}

/// The host that replies advertise, as far as it is configured.
pub enum HostView {
    Bound,
    Ip(IpAddr),
    Domain(Seq<char>),
}

/// What an [`Association`] stands for.
#[verifier::ext_equal]
pub struct AssociationView {
    /// The client's end of the control connection.
    pub peer: SocketAddr,
    /// The host that the reply advertises.
    pub advertise: HostView,
    pub stage: StageView,
}

/// What has happened to an association.
#[derive(Debug, PartialEq, Eq)]
pub enum Input {
    /// The local address of the control connection, where known.
    Local(Option<SocketAddr>),
    /// A relay socket was bound; this is its address, where known.
    Bound(Option<SocketAddr>),
    /// No relay socket was bound.
    NotBound,
    /// The host to advertise was resolved.
    Resolved(Vec<SocketAddr>),
    /// The host to advertise was not resolved, in words.
    NotResolved(String),
    /// The reply was written, or could not be.
    Replied(bool),
    /// The relay has ended.
    RelayEnded,
}

/// What an [`Input`] stands for.
pub enum InputView {
    Local(Option<SocketAddr>),
    Bound(Option<SocketAddr>),
    NotBound,
    Resolved(Seq<SocketAddr>),
    NotResolved(Seq<char>),
    Replied(bool),
    RelayEnded,
}

/// What to do for an association.
#[derive(Debug, PartialEq, Eq)]
pub enum Output {
    /// Bind a relay socket on this address.
    Bind(IpAddr),
    /// Resolve this host in the family of the bound address.
    Lookup(String),
    /// Write this reply to the client.
    Reply(Vec<u8>),
    /// Send the event, then relay datagrams.
    Relay(Event),
    /// Send the event; the association is over.
    Finish(Event),
    /// The association is over.
    End,
}

/// What an [`Output`] stands for.
pub enum OutputView {
    Bind(IpAddr),
    Lookup(Seq<char>),
    Reply(Seq<u8>),
    Relay(EventView),
    Finish(EventView),
    End,
}

impl View for Stage {
    type V = StageView;

    open spec fn view(&self) -> StageView {
        match self {
            Stage::Locating => StageView::Locating,
            Stage::Binding => StageView::Binding,
            Stage::Advertising(host, bound) => StageView::Advertising(host@, *bound),
            Stage::Refusing(error, counted, msg) => StageView::Refusing(*error, *counted, msg@),
            Stage::Replying => StageView::Replying,
            Stage::Relaying(id) => StageView::Relaying(*id),
            Stage::Over => StageView::Over,
        }
    }
}

/// What the configured host stands for.
pub open spec fn host_view(host: Option<AdvertiseHost>) -> HostView {
    match host {
        None => HostView::Bound,
        Some(AdvertiseHost::Ip(ip)) => HostView::Ip(ip),
        Some(AdvertiseHost::Domain(host)) => HostView::Domain(host@),
    }
}

impl View for Association {
    type V = AssociationView;

    closed spec fn view(&self) -> AssociationView {
        AssociationView {
            peer: self.peer,
            advertise: host_view(self.advertise),
            stage: self.stage@,
        }
    }
}

impl View for Input {
    type V = InputView;

    open spec fn view(&self) -> InputView {
        match self {
            Input::Local(addr) => InputView::Local(*addr),
            Input::Bound(addr) => InputView::Bound(*addr),
            Input::NotBound => InputView::NotBound,
            Input::Resolved(addresses) => InputView::Resolved(addresses@),
            Input::NotResolved(error) => InputView::NotResolved(error@),
            Input::Replied(ok) => InputView::Replied(*ok),
            Input::RelayEnded => InputView::RelayEnded,
        }
    }
}

impl View for Output {
    type V = OutputView;

    open spec fn view(&self) -> OutputView {
        match self {
            Output::Bind(ip) => OutputView::Bind(*ip),
            Output::Lookup(host) => OutputView::Lookup(host@),
            Output::Reply(reply) => OutputView::Reply(reply@),
            Output::Relay(event) => OutputView::Relay(event@),
            Output::Finish(event) => OutputView::Finish(event@),
            Output::End => OutputView::End,
        }
    }
}

/// The target that the registry shows for an association.
pub open spec fn association_target() -> Seq<char> {
    "udp-associate"@
}

impl AssociationView {
    /// The same association at another stage.
    pub open spec fn at(self, stage: StageView) -> AssociationView {
        AssociationView { stage, ..self }
    }

    /// Grant the association at `ip`. The advertised port is always the bound
    /// one, where the client sends its datagrams.
    pub open spec fn granted(self, ip: IpAddr, bound: SocketAddr) -> (AssociationView, OutputView) {
        (
            self.at(StageView::Replying),
            OutputView::Reply(
                reply_bytes(
                    REP_SUCCEEDED,
                    address_of(SocketAddr::spec_new(ip, bound.spec_port())),
                ),
            ),
        )
    }

    /// Refuse the association with `error`, in the words of `msg`.
    pub open spec fn refused(self, error: Socks5Error, counted: bool, msg: Seq<char>) -> (
        AssociationView,
        OutputView,
    ) {
        (
            self.at(StageView::Refusing(error, counted, msg)),
            OutputView::Reply(failure_bytes(error)),
        )
    }

    /// Refuse the association because the host to advertise was not resolved.
    pub open spec fn unresolved(self, error: Seq<char>) -> (AssociationView, OutputView) {
        self.refused(
            Socks5Error::HostUnreachable,
            true,
            "could not resolve UDP advertise host: "@ + error,
        )
    }

    /// What follows `input` before the association is granted or refused.
    pub open spec fn set_up(self, input: InputView) -> (AssociationView, OutputView) {
        match (self.stage, input) {
            (StageView::Locating, InputView::Local(local)) => match local {
                Some(local) => (
                    self.at(StageView::Binding),
                    OutputView::Bind(local.spec_ip().spec_canonical()),
                ),
                None => (self.at(StageView::Over), OutputView::End),
            },
            // Range exhausted or a fatal bind error: tell the client instead of
            // dropping the request silently.
            (StageView::Binding, InputView::NotBound) => self.refused(
                Socks5Error::General,
                false,
                "udp relay bind failed (port range exhausted?)"@,
            ),
            (StageView::Binding, InputView::Bound(bound)) => match bound {
                None => (self.at(StageView::Over), OutputView::End),
                Some(bound) => match self.advertise {
                    HostView::Bound => self.granted(bound.spec_ip(), bound),
                    // The all-zero address is never advertised.
                    HostView::Ip(ip) => if ip.spec_unspecified() {
                        self.granted(bound.spec_ip(), bound)
                    } else {
                        self.granted(ip, bound)
                    },
                    HostView::Domain(host) => (
                        self.at(StageView::Advertising(host, bound)),
                        OutputView::Lookup(host),
                    ),
                },
            },
            (StageView::Advertising(host, bound), InputView::Resolved(addresses)) => {
                let i = first_advertisable(addresses, bound.spec_ip());
                if i < addresses.len() {
                    self.granted(addresses[i as int].spec_ip(), bound)
                } else {
                    self.unresolved(host + ": no addresses matching the UDP socket family"@)
                }
            },
            (StageView::Advertising(host, bound), InputView::NotResolved(error)) => self.unresolved(
                error,
            ),
            _ => (self, OutputView::End),
        }
    }

    /// What follows `input`: the association and the metrics after it, and what
    /// to do. An input that the stage does not wait for has no effect.
    pub open spec fn next(self, metrics: MetricsView, input: InputView) -> (
        AssociationView,
        MetricsView,
        OutputView,
    ) {
        match (self.stage, input) {
            (StageView::Refusing(error, counted, msg), InputView::Replied(_)) => (
                self.at(StageView::Over),
                if counted {
                    metrics.with_error(error.code())
                } else {
                    metrics
                },
                OutputView::Finish(EventView::Error { code: error.code(), msg }),
            ),
            (StageView::Replying, InputView::Replied(ok)) => if ok {
                // The association is registered only after a successful reply.
                let id = metrics.next_id;
                (
                    self.at(StageView::Relaying(id)),
                    metrics.registered(self.peer, association_target(), ConnKind::Udp),
                    OutputView::Relay(
                        EventView::Connect {
                            id,
                            src: self.peer,
                            target: association_target(),
                            kind: ConnKind::Udp,
                        },
                    ),
                )
            } else {
                (self.at(StageView::Over), metrics, OutputView::End)
            },
            (StageView::Relaying(id), InputView::RelayEnded) => (
                self.at(StageView::Over),
                metrics.with_success().unregistered(id),
                OutputView::Finish(EventView::Closed { id }),
            ),
            _ => {
                let (after, output) = self.set_up(input);
                (after, metrics, output)
            },
        }
    }
}

impl Association {
    /// Start to serve the request of `peer` for an association whose reply
    /// advertises `advertise`.
    pub fn new(peer: SocketAddr, advertise: Option<AdvertiseHost>) -> (association: Association)
        ensures
            association@ == (AssociationView {
                peer,
                advertise: host_view(advertise),
                stage: StageView::Locating,
            }),
    {
        Association { peer, advertise, stage: Stage::Locating }
    }

    fn grant(&mut self, ip: IpAddr, bound: SocketAddr) -> (output: Output)
        ensures
            (final(self)@, output@) == old(self)@.granted(ip, bound),
    {
        self.stage = Stage::Replying;
        let address: Address = socket_addr_to_address(SocketAddr::new(ip, bound.port()));
        Output::Reply(success_reply(&address))
    }

    fn refuse(&mut self, error: Socks5Error, counted: bool, msg: String) -> (output: Output)
        ensures
            (final(self)@, output@) == old(self)@.refused(error, counted, msg@),
    {
        self.stage = Stage::Refusing(error, counted, msg);
        Output::Reply(failure_reply(error))
    }

    fn refuse_unresolved(&mut self, error: &str) -> (output: Output)
        ensures
            (final(self)@, output@) == old(self)@.unresolved(error@),
    {
        let mut msg: String = "could not resolve UDP advertise host: ".to_owned();
        msg.append(error);
        self.refuse(Socks5Error::HostUnreachable, true, msg)
    }

    fn bound(&mut self, bound: SocketAddr) -> (output: Output)
        requires
            old(self)@.stage is Binding,
        ensures
            (final(self)@, output@) == old(self)@.set_up(InputView::Bound(Some(bound))),
    {
        match advertise_plan(&self.advertise) {
            Advertise::Bound => self.grant(bound.ip(), bound),
            Advertise::Use(ip) => self.grant(ip, bound),
            Advertise::Lookup(host) => {
                self.stage = Stage::Advertising(host.clone(), bound);
                Output::Lookup(host)
            },
        }
    }

    fn set_up(&mut self, input: Input) -> (output: Output)
        ensures
            (final(self)@, output@) == old(self)@.set_up(input@),
    {
        match input {
            Input::Local(local) => {
                if let Stage::Locating = &self.stage {
                    return match local {
                        Some(local) => {
                            self.stage = Stage::Binding;
                            Output::Bind(relay_bind_ip(local))
                        },
                        None => {
                            self.stage = Stage::Over;
                            Output::End
                        },
                    };
                }
                Output::End
            },
            Input::NotBound => {
                if let Stage::Binding = &self.stage {
                    return self.refuse(
                        Socks5Error::General,
                        false,
                        "udp relay bind failed (port range exhausted?)".to_owned(),
                    );
                }
                Output::End
            },
            Input::Bound(bound) => {
                if let Stage::Binding = &self.stage {
                    return match bound {
                        Some(bound) => self.bound(bound),
                        None => {
                            self.stage = Stage::Over;
                            Output::End
                        },
                    };
                }
                Output::End
            },
            Input::Resolved(addresses) => {
                if let Stage::Advertising(host, bound) = &self.stage {
                    let bound: SocketAddr = *bound;
                    return match advertise_answer(host.as_str(), &addresses, bound.ip()) {
                        Ok(ip) => self.grant(ip, bound),
                        Err(error) => self.refuse_unresolved(error.as_str()),
                    };
                }
                Output::End
            },
            Input::NotResolved(error) => {
                if let Stage::Advertising(_, _) = &self.stage {
                    return self.refuse_unresolved(error.as_str());
                }
                Output::End
            },
            Input::Replied(_) => Output::End,
            Input::RelayEnded => Output::End,
        }
    }

    /// Take in what has happened, and decide what to do.
    pub fn next(&mut self, metrics: &mut Metrics, input: Input) -> (output: Output)
        ensures
            (final(self)@, final(metrics)@, output@) == old(self)@.next(old(metrics)@, input@),
            old(metrics).wf() ==> final(metrics).wf(),
    {
        match input {
            Input::Replied(ok) => self.replied(metrics, ok),
            Input::RelayEnded => {
                if let Stage::Relaying(id) = &self.stage {
                    let id: u64 = *id;
                    self.stage = Stage::Over;
                    metrics.record_success();
                    metrics.unregister(id);
                    return Output::Finish(Event::Closed { id });
                }
                Output::End
            },
            _ => self.set_up(input),
        }
    }

    fn replied(&mut self, metrics: &mut Metrics, ok: bool) -> (output: Output)
        ensures
            (final(self)@, final(metrics)@, output@) == old(self)@.next(
                old(metrics)@,
                InputView::Replied(ok),
            ),
            old(metrics).wf() ==> final(metrics).wf(),
    {
        match &self.stage {
            Stage::Refusing(error, counted, msg) => {
                let code: u8 = error.reply_code();
                let event: Event = Event::Error { code, msg: msg.clone() };
                if *counted {
                    metrics.record_error(code);
                }
                self.stage = Stage::Over;
                Output::Finish(event)
            },
            Stage::Replying => {
                if !ok {
                    self.stage = Stage::Over;
                    return Output::End;
                }
                let name: String = "udp-associate".to_owned();
                let id: u64 = metrics.register(self.peer, name.clone(), ConnKind::Udp);
                self.stage = Stage::Relaying(id);
                Output::Relay(
                    Event::Connect { id, src: self.peer, target: name, kind: ConnKind::Udp },
                )
            },
            _ => Output::End,
        }
    }
}

/// What the association is granted never advertises the all-zero address, unless
/// the relay socket is bound there; and the advertised port is the bound one.
pub proof fn advertised_addresses_are_usable(
    association: AssociationView,
    bound: SocketAddr,
    addresses: Seq<SocketAddr>,
)
    requires
        !bound.spec_ip().spec_unspecified(),
    ensures
        association.stage is Binding && association.set_up(InputView::Bound(Some(bound))).0.stage is Replying
            ==> exists|ip: IpAddr|
            {
                &&& !ip.spec_unspecified()
                &&& #[trigger] association.granted(ip, bound) == association.set_up(
                    InputView::Bound(Some(bound)),
                )
            },
        association.stage matches StageView::Advertising(_, at) && at == bound && association.set_up(
            InputView::Resolved(addresses),
        ).0.stage is Replying ==> exists|ip: IpAddr|
            {
                &&& advertisable(ip, bound.spec_ip())
                &&& #[trigger] association.granted(ip, bound) == association.set_up(
                    InputView::Resolved(addresses),
                )
            },
{
    if association.stage is Binding {
        match association.advertise {
            HostView::Ip(ip) => {
                if !ip.spec_unspecified() {
                    assert(association.granted(ip, bound) == association.set_up(
                        InputView::Bound(Some(bound)),
                    ));
                } else {
                    assert(association.granted(bound.spec_ip(), bound) == association.set_up(
                        InputView::Bound(Some(bound)),
                    ));
                }
            },
            HostView::Bound => {
                assert(association.granted(bound.spec_ip(), bound) == association.set_up(
                    InputView::Bound(Some(bound)),
                ));
            },
            HostView::Domain(_) => {},
        }
    }
    if let StageView::Advertising(_, at) = association.stage {
        lemma_first_is_advertisable(addresses, bound.spec_ip());
        let i = first_advertisable(addresses, bound.spec_ip());
        if at == bound && i < addresses.len() {
            let ip = addresses[i as int].spec_ip();
            assert(association.granted(ip, bound) == association.set_up(
                InputView::Resolved(addresses),
            ));
        }
    }
}

proof fn lemma_first_is_advertisable(addresses: Seq<SocketAddr>, bind_ip: IpAddr)
    ensures
        first_advertisable(addresses, bind_ip) <= addresses.len(),
        first_advertisable(addresses, bind_ip) < addresses.len() ==> advertisable(
            addresses[first_advertisable(addresses, bind_ip) as int].spec_ip(),
            bind_ip,
        ),
    decreases addresses.len(),
{
    if addresses.len() > 0 && !advertisable(addresses[0].spec_ip(), bind_ip) {
        lemma_first_is_advertisable(addresses.drop_first(), bind_ip);
    }
}

/// Where an association and the metrics stand after `inputs`.
pub open spec fn association_run(
    association: AssociationView,
    metrics: MetricsView,
    inputs: Seq<InputView>,
) -> (AssociationView, MetricsView)
    decreases inputs.len(),
{
    if inputs.len() == 0 {
        (association, metrics)
    } else {
        let (before, counted) = association_run(association, metrics, inputs.drop_last());
        let (after, recounted, _) = before.next(counted, inputs.last());
        (after, recounted)
    }
}

/// Whatever happens to an association, it is registered exactly while it is
/// relayed, and once it is over the registry and the active count are as they
/// were.
pub proof fn associations_leave_no_trace(
    peer: SocketAddr,
    advertise: HostView,
    metrics: MetricsView,
    inputs: Seq<InputView>,
)
    requires
        !metrics.registry.contains_key(metrics.next_id),
    ensures
        ({
            let start = AssociationView { peer, advertise, stage: StageView::Locating };
            let (association, after) = association_run(start, metrics, inputs);
            match association.stage {
                StageView::Relaying(id) => {
                    &&& id == metrics.next_id
                    &&& after.registry.contains_key(id)
                    &&& after.registry.remove(id) == metrics.registry
                    &&& after.counters.active_conns == metrics.counters.active_conns.wrapping_add(1)
                },
                _ => {
                    &&& after.registry == metrics.registry
                    &&& after.counters.active_conns == metrics.counters.active_conns
                    &&& !(association.stage is Over) ==> after.next_id == metrics.next_id
                },
            }
        }),
    decreases inputs.len(),
{
    let start = AssociationView { peer, advertise, stage: StageView::Locating };
    if inputs.len() > 0 {
        associations_leave_no_trace(peer, advertise, metrics, inputs.drop_last());
        let (before, counted) = association_run(start, metrics, inputs.drop_last());
        let (after, recounted, _) = before.next(counted, inputs.last());
        if let StageView::Relaying(id) = after.stage {
            if !(before.stage is Relaying) {
                assert(recounted.registry.remove(id) =~= counted.registry);
            }
        }
    }
}

/// An association that no relay socket was bound for, or whose host to advertise
/// was not resolved, is answered by a failure reply; whether or not that was
/// written, the failure is reported under the same code, and the association is
/// over.
pub proof fn refused_associations_are_answered(
    association: AssociationView,
    metrics: MetricsView,
    input: InputView,
    written: bool,
)
    requires
        association.stage is Binding && input is NotBound || association.stage is Advertising
            && input is NotResolved,
    ensures
        ({
            let error = if input is NotBound {
                Socks5Error::General
            } else {
                Socks5Error::HostUnreachable
            };
            let (refused, same, answer) = association.next(metrics, input);
            let (over, _, report) = refused.next(same, InputView::Replied(written));
            &&& answer == OutputView::Reply(failure_bytes(error))
            &&& over.stage is Over
            &&& report matches OutputView::Finish(EventView::Error { code, .. }) && code
                == error.code()
        }),
{
}

/// What wakes the relay of an association.
#[derive(Debug, PartialEq, Eq)]
pub enum Wake<'a> {
    /// A datagram arrived on the relay socket.
    Datagram(SocketAddr, &'a [u8]),
    /// None arrived for the idle window.
    Idle,
    /// The relay socket failed.
    SocketFailed,
    /// The control connection was read from: this many bytes, or `None` where
    /// that failed.
    Control(Option<usize>),
    /// The shutdown channel has changed: its sender is gone, or it says this.
    Shutdown(bool, bool),
}

/// What the relay of an association does next.
#[derive(Debug, PartialEq, Eq)]
pub enum Turn<'a> {
    /// See to the datagram.
    Datagram(UdpAction<'a>),
    /// Wait on.
    Wait,
    /// Tear the association down.
    End,
}

/// One turn of an association's relay at `now`: an idle window, a failed socket,
/// the end of the control connection and a shutdown request end it; unexpected
/// data on the control connection is ignored.
pub fn turn<'a>(relay: &mut UdpRelay, wake: Wake<'a>, now: u64) -> (turn: Turn<'a>)
    ensures
        match wake {
            Wake::Datagram(src, bytes) => turn matches Turn::Datagram(action) && (
                final(relay)@,
                action@,
            ) == old(relay)@.received(src, bytes@, now),
            Wake::Idle => turn == Turn::<'a>::End && final(relay)@ == old(relay)@,
            Wake::SocketFailed => turn == Turn::<'a>::End && final(relay)@ == old(relay)@,
            Wake::Control(read) => final(relay)@ == old(relay)@ && turn == (if read == Some(0usize)
                || read is None {
                Turn::<'a>::End
            } else {
                Turn::<'a>::Wait
            }),
            Wake::Shutdown(sender_gone, requested) => final(relay)@ == old(relay)@ && turn == (
            if sender_gone || requested {
                Turn::<'a>::End
            } else {
                Turn::<'a>::Wait
            }),
        },
        old(relay)@.wf() ==> final(relay)@.wf(),
{
    match wake {
        Wake::Datagram(src, bytes) => Turn::Datagram(relay.receive(src, bytes, now)),
        Wake::Idle => Turn::End,
        Wake::SocketFailed => Turn::End,
        Wake::Control(read) => match read {
            Some(n) => if n == 0 {
                Turn::End
            } else {
                Turn::Wait
            },
            None => Turn::End,
        },
        Wake::Shutdown(sender_gone, requested) => if sender_gone || requested {
            Turn::End
        } else {
            Turn::Wait
        },
    }
}

/// Account for a datagram of `len` bytes that was sent to `target`, or could not
/// be: only what was sent counts.
pub fn account_sent(
    relay: &mut UdpRelay,
    metrics: &mut Metrics,
    id: u64,
    target: SocketAddr,
    len: u64,
    sent: bool,
)
    requires
        old(relay)@.has_room(),
    ensures
        final(relay)@ == (if sent {
            old(relay)@.sent(target)
        } else {
            old(relay)@
        }),
        final(metrics)@ == (if sent {
            old(metrics)@.with_up(id, len)
        } else {
            old(metrics)@
        }),
        old(relay)@.wf() && !old(relay)@.egress.blocks(target.spec_ip()) ==> final(relay)@.wf(),
        old(metrics).wf() ==> final(metrics).wf(),
{
    if sent {
        relay.sent(target);
        metrics.add_up(id, len);
    }
}

/// Account for a datagram of `len` bytes that arrived for the client and was
/// passed on: what arrived counts, whether or not it could be sent.
pub fn account_delivered(metrics: &mut Metrics, id: u64, len: u64)
    ensures
        final(metrics)@ == old(metrics)@.with_down(id, len),
        old(metrics).wf() ==> final(metrics).wf(),
{
    metrics.add_down(id, len);
}

/// The IP address of a socket.
pub open spec fn ip_of(addr: SocketAddr) -> IpAddr {
    match addr {
        SocketAddr::V4(addr) => IpAddr::V4(addr.ip),
        SocketAddr::V6(addr) => IpAddr::V6(addr.ip),
    }
}

/// The port of a socket.
pub open spec fn port_of(addr: SocketAddr) -> u16 {
    match addr {
        SocketAddr::V4(addr) => addr.port,
        SocketAddr::V6(addr) => addr.port,
    }
}

/// The relay socket that an association has once `input` has come in.
pub open spec fn relay_socket(stage: StageView, input: InputView) -> Option<SocketAddr> {
    match (stage, input) {
        (StageView::Binding, InputView::Bound(bound)) => bound,
        (StageView::Advertising(_, bound), _) => Some(bound),
        _ => None,
    }
}

proof fn lemma_granted(association: AssociationView, ip: IpAddr, bound: SocketAddr)
    ensures
        association.granted(ip, bound).1 matches OutputView::Reply(reply) && names_endpoint(
            reply,
            ip,
            port_of(bound),
        ),
        association.granted(ip, bound).0.stage is Replying,
{
    success_replies_name_the_endpoint(ip, port_of(bound));
}

/// Whenever an association is granted, the bytes of the reply name the port that
/// the relay socket is bound on, whichever IP address they name.
pub proof fn every_grant_names_the_bound_port(
    association: AssociationView,
    metrics: MetricsView,
    input: InputView,
)
    requires
        !(association.stage is Replying),
        association.next(metrics, input).0.stage is Replying,
    ensures
        relay_socket(association.stage, input) is Some,
        association.next(metrics, input).2 is Reply,
        exists|ip: IpAddr| #[trigger]
            names_endpoint(
                association.next(metrics, input).2->Reply_0,
                ip,
                port_of(relay_socket(association.stage, input)->Some_0),
            ),
{
    let bound = relay_socket(association.stage, input)->Some_0;
    let ip = match (association.stage, input) {
        (StageView::Binding, InputView::Bound(_)) => match association.advertise {
            HostView::Ip(ip) => if ip.spec_unspecified() {
                bound.spec_ip()
            } else {
                ip
            },
            _ => bound.spec_ip(),
        },
        (StageView::Advertising(_, _), InputView::Resolved(addresses)) => addresses[first_advertisable(
            addresses,
            bound.spec_ip(),
        ) as int].spec_ip(),
        _ => bound.spec_ip(),
    };
    lemma_granted(association, ip, bound);
    assert(association.next(metrics, input).2 == association.granted(ip, bound).1);
}

/// A bound association advertises the IP address that is configured, or that of
/// its socket where none is or the configured one is all zero, always with the port
/// of the socket; a configured name is looked up first.
pub proof fn bound_associations_are_granted(
    association: AssociationView,
    metrics: MetricsView,
    bound: SocketAddr,
)
    requires
        association.stage is Binding,
    ensures
        ({
            let (after, same, output) = association.next(metrics, InputView::Bound(Some(bound)));
            let ip = match association.advertise {
                HostView::Ip(IpAddr::V4(v4)) => if v4.bits == 0 {
                    ip_of(bound)
                } else {
                    IpAddr::V4(v4)
                },
                HostView::Ip(IpAddr::V6(v6)) => if v6.bits == 0 {
                    ip_of(bound)
                } else {
                    IpAddr::V6(v6)
                },
                _ => ip_of(bound),
            };
            &&& same == metrics
            &&& match association.advertise {
                HostView::Domain(host) => after == (AssociationView {
                    stage: StageView::Advertising(host, bound),
                    ..association
                }) && output == OutputView::Lookup(host),
                _ => after == (AssociationView { stage: StageView::Replying, ..association }) && (
                output matches OutputView::Reply(reply) && names_endpoint(reply, ip, port_of(bound))),
            }
        }),
{
    let ip = match association.advertise {
        HostView::Ip(ip) => if ip.spec_unspecified() {
            bound.spec_ip()
        } else {
            ip
        },
        _ => bound.spec_ip(),
    };
    lemma_granted(association, ip, bound);
}

/// Whether `ip` can be advertised for a socket bound on `bound`: it is not all
/// zero and of the same family.
pub open spec fn reachable_like(ip: IpAddr, bound: SocketAddr) -> bool {
    match (ip, bound) {
        (IpAddr::V4(v4), SocketAddr::V4(_)) => v4.bits != 0,
        (IpAddr::V6(v6), SocketAddr::V6(_)) => v6.bits != 0,
        _ => false,
    }
}

proof fn lemma_first_advertisable_is(addresses: Seq<SocketAddr>, bound: SocketAddr, i: int)
    requires
        0 <= i <= addresses.len(),
        i < addresses.len() ==> reachable_like(ip_of(addresses[i]), bound),
        forall|j: int| 0 <= j < i ==> !reachable_like(ip_of(#[trigger] addresses[j]), bound),
    ensures
        first_advertisable(addresses, bound.spec_ip()) == i,
    decreases addresses.len(),
{
    if i > 0 {
        assert(!reachable_like(ip_of(addresses[0]), bound));
        let rest = addresses.drop_first();
        assert forall|j: int| 0 <= j < i - 1 implies !reachable_like(
            ip_of(#[trigger] rest[j]),
            bound,
        ) by {
            assert(rest[j] == addresses[j + 1]);
        }
        lemma_first_advertisable_is(rest, bound, i - 1);
    }
}

/// A looked-up association advertises the first address of the answer that is of
/// the socket's family and not all zero, with the port of the socket; where there
/// is none it is refused as host unreachable.
pub proof fn looked_up_associations_are_granted(
    association: AssociationView,
    metrics: MetricsView,
    host: Seq<char>,
    bound: SocketAddr,
    addresses: Seq<SocketAddr>,
    i: int,
)
    requires
        association.stage == StageView::Advertising(host, bound),
        0 <= i <= addresses.len(),
        i < addresses.len() ==> reachable_like(ip_of(addresses[i]), bound),
        forall|j: int| 0 <= j < i ==> !reachable_like(ip_of(#[trigger] addresses[j]), bound),
    ensures
        ({
            let (after, same, output) = association.next(metrics, InputView::Resolved(addresses));
            &&& same == metrics
            &&& i < addresses.len() ==> after.stage is Replying && (output matches OutputView::Reply(
                reply,
            ) && names_endpoint(reply, ip_of(addresses[i]), port_of(bound)))
            &&& i == addresses.len() ==> after.stage == StageView::Refusing(
                Socks5Error::HostUnreachable,
                true,
                "could not resolve UDP advertise host: "@ + (host
                    + ": no addresses matching the UDP socket family"@),
            ) && output == OutputView::Reply(failure_bytes(Socks5Error::HostUnreachable))
        }),
{
    lemma_first_advertisable_is(addresses, bound, i);
    if i < addresses.len() {
        lemma_granted(association, addresses[i].spec_ip(), bound);
    }
}

/// An association binds on the IP address that its control connection came in at,
/// the IPv4 one where that is mapped; where it is not known nothing is done.
pub proof fn associations_bind_where_the_client_came_in(
    association: AssociationView,
    metrics: MetricsView,
    local: SocketAddr,
)
    requires
        association.stage is Locating,
    ensures
        association.next(metrics, InputView::Local(Some(local))) == (
            AssociationView { stage: StageView::Binding, ..association },
            metrics,
            OutputView::Bind(ip_of(local).spec_canonical()),
        ),
        association.next(metrics, InputView::Local(None)) == (
            AssociationView { stage: StageView::Over, ..association },
            metrics,
            OutputView::End,
        ),
{
}

/// An association is registered, once its reply was written, under the next id
/// with its client; when its relay has ended it counts as served, leaves the
/// registry and is announced as closed.
pub proof fn granted_associations_are_relayed(
    association: AssociationView,
    metrics: MetricsView,
    counted: MetricsView,
)
    requires
        association.stage is Replying,
    ensures
        ({
            let id = metrics.next_id;
            let (relaying, registered, output) = association.next(
                metrics,
                InputView::Replied(true),
            );
            &&& registered == metrics.registered(association.peer, "udp-associate"@, ConnKind::Udp)
            &&& output == OutputView::Relay(
                EventView::Connect {
                    id,
                    src: association.peer,
                    target: "udp-associate"@,
                    kind: ConnKind::Udp,
                },
            )
            &&& relaying.stage == StageView::Relaying(id)
            &&& relaying.next(counted, InputView::RelayEnded) == (
                AssociationView { stage: StageView::Over, ..association },
                counted.with_success().unregistered(id),
                OutputView::Finish(EventView::Closed { id }),
            )
        }),
{
}

/// An association that was not bound is refused as a general failure, which is
/// reported but not counted; one whose host was not resolved is refused as host
/// unreachable, which is both. One whose socket has no address, or whose reply was
/// not written, is dropped.
pub proof fn associations_fail_for_cause(
    association: AssociationView,
    metrics: MetricsView,
    error: Seq<char>,
    written: bool,
)
    ensures
        ({
            let over = AssociationView { stage: StageView::Over, ..association };
            &&& association.stage is Binding ==> {
                let (refused, same, answer) = association.next(metrics, InputView::NotBound);
                &&& answer == OutputView::Reply(failure_bytes(Socks5Error::General))
                &&& refused.next(same, InputView::Replied(written)) == (
                    over,
                    metrics,
                    OutputView::Finish(
                        EventView::Error {
                            code: 1,
                            msg: "udp relay bind failed (port range exhausted?)"@,
                        },
                    ),
                )
                &&& association.next(metrics, InputView::Bound(None)) == (
                    over,
                    metrics,
                    OutputView::End,
                )
            }
            &&& association.stage is Advertising ==> {
                let (refused, same, answer) = association.next(
                    metrics,
                    InputView::NotResolved(error),
                );
                &&& answer == OutputView::Reply(failure_bytes(Socks5Error::HostUnreachable))
                &&& refused.next(same, InputView::Replied(written)) == (
                    over,
                    metrics.with_error(4),
                    OutputView::Finish(
                        EventView::Error {
                            code: 4,
                            msg: "could not resolve UDP advertise host: "@ + error,
                        },
                    ),
                )
            }
            &&& association.stage is Replying ==> association.next(
                metrics,
                InputView::Replied(false),
            ) == (over, metrics, OutputView::End)
        }),
{
}

/// Without a host to advertise, the bound address is advertised; else the host is,
/// an address or a name.
pub proof fn advertised_hosts_are_the_configured_ones(ip: IpAddr, name: String)
    ensures
        host_view(None) == HostView::Bound,
        host_view(Some(AdvertiseHost::Ip(ip))) == HostView::Ip(ip),
        host_view(Some(AdvertiseHost::Domain(name))) == HostView::Domain(name@),
{
}

} // verus!
