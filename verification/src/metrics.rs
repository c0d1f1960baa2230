//! Counters, a connection registry, and the [`Event`] type that the server
//! reports with.
//!
//! [`Metrics`] is mutated by the server as connections come and go, and sampled
//! by the dashboard through [`Snapshot`]s and the list of active connections.
//! Counters wrap around at their width.

use std::collections::HashMap;

use vstd::prelude::*;
use vstd::std_specs::iter::IteratorSpec;

use crate::net::SocketAddr;
use crate::text::{decimal, hex_byte, push_decimal, push_hex_byte, push_socket, socket_text};

verus! {

broadcast use vstd::std_specs::hash::group_hash_axioms;

/// Kind of proxied connection.
#[derive(Debug, Clone, Copy, PartialEq, Eq, Structural)]
pub enum ConnKind {
    Connect,
    Udp,
}

/// Per-connection bookkeeping stored in the registry.
#[derive(Debug, PartialEq, Eq)]
pub struct ConnInfo {
    pub id: u64,
    pub src: SocketAddr,
    pub target: String,
    pub kind: ConnKind,
    pub up: u64,
    pub down: u64,
}

/// What a [`ConnInfo`] stands for.
pub struct ConnInfoView {
    pub id: u64,
    pub src: SocketAddr,
    pub target: Seq<char>,
    pub kind: ConnKind,
    pub up: u64,
    pub down: u64,
}

/// A point-in-time copy of the global counters for the TUI to sample.
#[derive(Debug, PartialEq, Eq, Clone, Copy)]
pub struct Snapshot {
    pub bytes_up: u64,
    pub bytes_down: u64,
    pub total_conns: u64,
    pub active_conns: u64,
    pub successes: u64,
    pub failures: u64,
    pub error_codes: [u64; 9],  // indexed by RFC reply code 0..=8
}

/// What a [`Snapshot`] stands for.
#[verifier::ext_equal]
pub struct SnapshotView {
    pub bytes_up: u64,
    pub bytes_down: u64,
    pub total_conns: u64,
    pub active_conns: u64,
    pub successes: u64,
    pub failures: u64,
    pub error_codes: Seq<u64>,
}

/// Log/lifecycle events delivered to the TUI log panel or stdout (headless).
#[derive(Debug, PartialEq, Eq)]
pub enum Event {
    Connect { id: u64, src: SocketAddr, target: String, kind: ConnKind },
    Closed { id: u64 },
    Auth { ok: bool, user: String },
    Error { code: u8, msg: String },
    Log(String),
}

/// What an [`Event`] stands for.
pub enum EventView {
    Connect { id: u64, src: SocketAddr, target: Seq<char>, kind: ConnKind },
    Closed { id: u64 },
    Auth { ok: bool, user: Seq<char> },
    Error { code: u8, msg: Seq<char> },
    Log(Seq<char>),
}

/// Global counters plus a connection registry.
pub struct Metrics {
    counters: Snapshot,
    registry: HashMap<u64, ConnInfo>,
    next_id: u64,
}

/// What [`Metrics`] stands for.
#[verifier::ext_equal]
pub struct MetricsView {
    pub counters: SnapshotView,
    pub registry: Map<u64, ConnInfoView>,
    pub next_id: u64,
}

impl ConnKind {
    /// The word for this kind of connection.
    pub open spec fn spec_label(self) -> Seq<char> {
        match self {
            ConnKind::Connect => "CONNECT"@,
            ConnKind::Udp => "UDP"@,
        }
    }

    /// The word for this kind of connection.
    pub fn label(&self) -> (label: &'static str)
        ensures
            label@ == self.spec_label(),
    {
        match self {
            ConnKind::Connect => "CONNECT",
            ConnKind::Udp => "UDP",
        }
    }
}

impl View for ConnInfo {
    type V = ConnInfoView;

    open spec fn view(&self) -> ConnInfoView {
        ConnInfoView {
            id: self.id,
            src: self.src,
            target: self.target@,
            kind: self.kind,
            up: self.up,
            down: self.down,
        }
    }
}

impl Clone for ConnInfo {
    fn clone(&self) -> (copy: ConnInfo)
        ensures
            copy == *self,
    {
        ConnInfo {
            id: self.id,
            src: self.src,
            target: self.target.clone(),
            kind: self.kind,
            up: self.up,
            down: self.down,
        }
    }
}

impl View for Snapshot {
    type V = SnapshotView;

    open spec fn view(&self) -> SnapshotView {
        SnapshotView {
            bytes_up: self.bytes_up,
            bytes_down: self.bytes_down,
            total_conns: self.total_conns,
            active_conns: self.active_conns,
            successes: self.successes,
            failures: self.failures,
            error_codes: self.error_codes@,
        }
    }
}

impl SnapshotView {
    /// All counters at zero.
    pub open spec fn zero() -> SnapshotView {
        SnapshotView {
            bytes_up: 0,
            bytes_down: 0,
            total_conns: 0,
            active_conns: 0,
            successes: 0,
            failures: 0,
            error_codes: seq![0u64, 0, 0, 0, 0, 0, 0, 0, 0],
        }
    }
}

impl Default for Snapshot {
    fn default() -> (snapshot: Snapshot)
        ensures
            snapshot@ == SnapshotView::zero(),
    {
        let snapshot = Snapshot {
            bytes_up: 0,
            bytes_down: 0,
            total_conns: 0,
            active_conns: 0,
            successes: 0,
            failures: 0,
            error_codes: [0, 0, 0, 0, 0, 0, 0, 0, 0],
        };
        assert(snapshot@ =~= SnapshotView::zero());
        snapshot
    }
}

impl View for Event {
    type V = EventView;

    open spec fn view(&self) -> EventView {
        match self {
            Event::Connect { id, src, target, kind } => EventView::Connect {
                id: *id,
                src: *src,
                target: target@,
                kind: *kind,
            },
            Event::Closed { id } => EventView::Closed { id: *id },
            Event::Auth { ok, user } => EventView::Auth { ok: *ok, user: user@ },
            Event::Error { code, msg } => EventView::Error { code: *code, msg: msg@ },
            Event::Log(text) => EventView::Log(text@),
        }
    }
}

impl Clone for Event {
    fn clone(&self) -> (copy: Event)
        ensures
            copy == *self,
    {
        match self {
            Event::Connect { id, src, target, kind } => Event::Connect {
                id: *id,
                src: *src,
                target: target.clone(),
                kind: *kind,
            },
            Event::Closed { id } => Event::Closed { id: *id },
            Event::Auth { ok, user } => Event::Auth { ok: *ok, user: user.clone() },
            Event::Error { code, msg } => Event::Error { code: *code, msg: msg.clone() },
            Event::Log(text) => Event::Log(text.clone()),
        }
    }
}

/// An event as one log line.
pub open spec fn event_line(event: EventView) -> Seq<char> {
    match event {
        EventView::Connect { id, src, target, kind } => "["@ + decimal(id as nat) + "] "@
            + kind.spec_label() + " "@ + socket_text(src) + " -> "@ + target,
        EventView::Closed { id } => "["@ + decimal(id as nat) + "] closed"@,
        EventView::Auth { ok, user } => if ok {
            "auth ok: "@ + user
        } else {
            "auth failed: "@ + user
        },
        EventView::Error { code, msg } => "error 0x"@ + hex_byte(code) + ": "@ + msg,
        EventView::Log(text) => text,
    }
}

/// Render an event as one log line.
pub fn format_event(event: &Event) -> (line: String)
    ensures
        line@ == event_line(event@),
{
    match event {
        Event::Connect { id, src, target, kind } => {
            let mut line: String = "[".to_owned();
            push_decimal(&mut line, *id as u128);
            line.append("] ");
            line.append(kind.label());
            line.append(" ");
            push_socket(&mut line, *src);
            line.append(" -> ");
            line.append(target.as_str());
            line
        },
        Event::Closed { id } => {
            let mut line: String = "[".to_owned();
            push_decimal(&mut line, *id as u128);
            line.append("] closed");
            line
        },
        Event::Auth { ok, user } => {
            let mut line: String = if *ok {
                "auth ok: ".to_owned()
            } else {
                "auth failed: ".to_owned()
            };
            line.append(user.as_str());
            line
        },
        Event::Error { code, msg } => {
            let mut line: String = "error 0x".to_owned();
            push_hex_byte(&mut line, *code);
            line.append(": ");
            line.append(msg.as_str());
            line
        },
        Event::Log(text) => text.clone(),
    }
}

impl MetricsView {
    /// Counters at zero, no connections, and ids from 1 on.
    pub open spec fn initial() -> MetricsView {
        MetricsView { counters: SnapshotView::zero(), registry: Map::empty(), next_id: 1 }
    }

    /// After a connection has been registered under the next id.
    pub open spec fn registered(self, src: SocketAddr, target: Seq<char>, kind: ConnKind) -> MetricsView {
        let id = self.next_id;
        MetricsView {
            counters: SnapshotView {
                total_conns: self.counters.total_conns.wrapping_add(1),
                active_conns: self.counters.active_conns.wrapping_add(1),
                ..self.counters
            },
            registry: self.registry.insert(
                id,
                ConnInfoView { id, src, target, kind, up: 0, down: 0 },
            ),
            next_id: id.wrapping_add(1),
        }
    }

    /// After connection `id` has gone.
    pub open spec fn unregistered(self, id: u64) -> MetricsView {
        MetricsView {
            counters: SnapshotView {
                active_conns: self.counters.active_conns.wrapping_sub(1),
                ..self.counters
            },
            registry: self.registry.remove(id),
            ..self
        }
    }

    /// After connection `id` has sent `n` bytes upstream.
    pub open spec fn with_up(self, id: u64, n: u64) -> MetricsView {
        MetricsView {
            counters: SnapshotView {
                bytes_up: self.counters.bytes_up.wrapping_add(n),
                ..self.counters
            },
            registry: if self.registry.contains_key(id) {
                let info = self.registry[id];
                self.registry.insert(id, ConnInfoView { up: info.up.wrapping_add(n), ..info })
            } else {
                self.registry
            },
            ..self
        }
    }

    /// After connection `id` has received `n` bytes from upstream.
    pub open spec fn with_down(self, id: u64, n: u64) -> MetricsView {
        MetricsView {
            counters: SnapshotView {
                bytes_down: self.counters.bytes_down.wrapping_add(n),
                ..self.counters
            },
            registry: if self.registry.contains_key(id) {
                let info = self.registry[id];
                self.registry.insert(id, ConnInfoView { down: info.down.wrapping_add(n), ..info })
            } else {
                self.registry
            },
            ..self
        }
    }

    /// After a request has failed with reply code `code`.
    pub open spec fn with_error(self, code: u8) -> MetricsView {
        let codes = self.counters.error_codes;
        MetricsView {
            counters: SnapshotView {
                failures: self.counters.failures.wrapping_add(1),
                error_codes: if code <= 8 {
                    codes.update(code as int, codes[code as int].wrapping_add(1))
                } else {
                    codes
                },
                ..self.counters
            },
            ..self
        }
    }

    /// After a request has been served.
    pub open spec fn with_success(self) -> MetricsView {
        MetricsView {
            counters: SnapshotView {
                successes: self.counters.successes.wrapping_add(1),
                ..self.counters
            },
            ..self
        }
    }

    /// Whether each connection is registered under its own id.
    pub open spec fn keyed_by_id(self) -> bool {
        forall|id: u64| #[trigger] self.registry.contains_key(id) ==> self.registry[id].id == id
    }

    /// Whether every registered id has been handed out: it lies between 1 and the
    /// next id. This holds until ids wrap around.
    pub open spec fn ids_issued(self) -> bool {
        &&& self.next_id >= 1
        &&& forall|id: u64| #[trigger]
            self.registry.contains_key(id) ==> 1 <= id < self.next_id
    }

    /// Whether the active count is the number of registered connections.
    pub open spec fn active_counted(self) -> bool {
        &&& self.registry.dom().finite()
        &&& self.counters.active_conns == self.registry.dom().len()
    }

    /// Whether `list` holds the registered connections and no others, each once.
    pub open spec fn lists(self, list: Seq<ConnInfoView>) -> bool {
        &&& list.len() == self.registry.dom().len()
        &&& forall|i: int|
            0 <= i < list.len() ==> self.registry.contains_key((#[trigger] list[i]).id)
                && self.registry[list[i].id] == list[i]
        &&& forall|i: int, j: int|
            0 <= i < j < list.len() ==> (#[trigger] list[i]).id != (#[trigger] list[j]).id
        &&& forall|id: u64| #[trigger]
            self.registry.contains_key(id) ==> exists|i: int|
                0 <= i < list.len() && (#[trigger] list[i]).id == id
    }
}

/// What a sequence of connections stands for.
pub open spec fn conn_views(list: Seq<ConnInfo>) -> Seq<ConnInfoView> {
    list.map_values(|info: ConnInfo| info@)
}

/// What a sequence of events stands for.
pub open spec fn event_views(events: Seq<Event>) -> Seq<EventView> {
    events.map_values(|event: Event| event@)
}

impl View for Metrics {
    type V = MetricsView;

    closed spec fn view(&self) -> MetricsView {
        MetricsView {
            counters: self.counters@,
            registry: self.registry@.map_values(|info: ConnInfo| info@),
            next_id: self.next_id,
        }
    }
}

impl Metrics {
    /// Whether each connection is registered under its own id.
    pub open spec fn wf(self) -> bool {
        self@.keyed_by_id()
    }

    /// Create a new, zeroed metrics store.
    pub fn new() -> (metrics: Metrics)
        ensures
            metrics@ == MetricsView::initial(),
            metrics.wf(),
    {
        // Ids start at 1 so that 0 can be used as a sentinel by callers.
        let metrics = Metrics { counters: Snapshot::default(), registry: HashMap::new(), next_id: 1 };
        assert(metrics@ =~= MetricsView::initial());
        metrics
    }

    /// Allocate a unique id, increment total/active connection counts, and
    /// insert the [`ConnInfo`] into the registry. Returns the new id.
    pub fn register(&mut self, src: SocketAddr, target: String, kind: ConnKind) -> (id: u64)
        ensures
            id == old(self)@.next_id,
            final(self)@ == old(self)@.registered(src, target@, kind),
            old(self).wf() ==> final(self).wf(),
    {
        let id: u64 = self.next_id;
        self.next_id = id.wrapping_add(1);
        self.counters.total_conns = self.counters.total_conns.wrapping_add(1);
        self.counters.active_conns = self.counters.active_conns.wrapping_add(1);
        let info = ConnInfo { id, src, target, kind, up: 0, down: 0 };
        self.registry.insert(id, info);
        assert(self@ =~= old(self)@.registered(src, target@, kind));
        id
    }

    /// Decrement the active connection count and remove the entry from the
    /// registry. No-op for unknown ids beyond the active-count decrement.
    pub fn unregister(&mut self, id: u64)
        ensures
            final(self)@ == old(self)@.unregistered(id),
            old(self).wf() ==> final(self).wf(),
    {
        self.counters.active_conns = self.counters.active_conns.wrapping_sub(1);
        let _ = self.registry.remove(&id);
        assert(self@ =~= old(self)@.unregistered(id));
    }

    /// Add `n` to the global upload counter and to the per-connection upload
    /// counter (if the connection is still in the registry).
    pub fn add_up(&mut self, id: u64, n: u64)
        ensures
            final(self)@ == old(self)@.with_up(id, n),
            old(self).wf() ==> final(self).wf(),
    {
        self.counters.bytes_up = self.counters.bytes_up.wrapping_add(n);
        match self.registry.remove(&id) {
            Some(info) => {
                let mut info: ConnInfo = info;
                info.up = info.up.wrapping_add(n);
                self.registry.insert(id, info);
            },
            None => {},
        }
        assert(self@ =~= old(self)@.with_up(id, n));
    }

    /// Add `n` to the global download counter and to the per-connection
    /// download counter (if the connection is still in the registry).
    pub fn add_down(&mut self, id: u64, n: u64)
        ensures
            final(self)@ == old(self)@.with_down(id, n),
            old(self).wf() ==> final(self).wf(),
    {
        self.counters.bytes_down = self.counters.bytes_down.wrapping_add(n);
        match self.registry.remove(&id) {
            Some(info) => {
                let mut info: ConnInfo = info;
                info.down = info.down.wrapping_add(n);
                self.registry.insert(id, info);
            },
            None => {},
        }
        assert(self@ =~= old(self)@.with_down(id, n));
    }

    /// Record a failure: increment the failure counter and the per-code
    /// histogram bucket.
    ///
    /// `failures` is always incremented, but the histogram bucket is only
    /// written when `code <= 8`: other codes have none.
    pub fn record_error(&mut self, code: u8)
        ensures
            final(self)@ == old(self)@.with_error(code),
            old(self).wf() ==> final(self).wf(),
    {
        self.counters.failures = self.counters.failures.wrapping_add(1);
        if code <= 8 {
            let bucket: usize = code as usize;
            self.counters.error_codes[bucket] = self.counters.error_codes[bucket].wrapping_add(1);
        }
        assert(self@ =~= old(self)@.with_error(code));
    }

    /// Record a successful request.
    pub fn record_success(&mut self)
        ensures
            final(self)@ == old(self)@.with_success(),
            old(self).wf() ==> final(self).wf(),
    {
        self.counters.successes = self.counters.successes.wrapping_add(1);
        assert(self@ =~= old(self)@.with_success());
    }

    /// Copy the current global counters into a [`Snapshot`].
    pub fn snapshot(&self) -> (snapshot: Snapshot)
        ensures
            snapshot@ == self@.counters,
    {
        self.counters
    }

    /// Clone the current list of active connections (for the TUI table), in no
    /// particular order.
    pub fn connections(&self) -> (list: Vec<ConnInfo>)
        requires
            self.wf(),
        ensures
            self@.lists(conn_views(list@)),
    {
        let mut list: Vec<ConnInfo> = Vec::new();
        let keys = self.registry.keys();
        let ghost order = IteratorSpec::remaining(&keys).unref();
        for id in ids: keys
            invariant
                self.wf(),
                list@.len() == ids.index(),
                ids.seq().unref() == order,
                order.len() == ids.seq().len(),
                order.to_set() == self.registry@.dom(),
                forall|i: int|
                    0 <= i < list@.len() ==> #[trigger] list@[i]@ == self.registry@[order[i]]@,
        {
            proof {
                assert(order[ids.index()] == *id);
                assert(order.to_set().contains(*id));
            }
            match self.registry.get(id) {
                Some(info) => list.push(info.clone()),
                None => {
                    assert(false);
                },
            }
        }
        proof {
            let views = conn_views(list@);
            assert(self@.registry.dom() =~= self.registry@.dom());
            assert(order.no_duplicates());
            assert forall|i: int| 0 <= i < views.len() implies self@.registry.contains_key(
                (#[trigger] views[i]).id,
            ) && self@.registry[views[i].id] == views[i] && views[i].id == order[i] by {
                assert(order.to_set().contains(order[i]));
                assert(self@.registry.contains_key(order[i]));
                assert(views[i] == list@[i]@);
            }
            assert forall|id: u64| #[trigger] self@.registry.contains_key(id) implies exists|i: int|
                0 <= i < views.len() && (#[trigger] views[i]).id == id by {
                assert(order.to_set().contains(id));
                let i = order.index_of(id);
                assert(views[i].id == id);
            }
        }
        list
    }

    /// Current number of active connections.
    pub fn active(&self) -> (active: u64)
        ensures
            active == self@.counters.active_conns,
    {
        self.counters.active_conns
    }
}

/// Until ids wrap around, a registration gets an id that no registered
/// connection has, and one registration never gets the id of another.
pub proof fn ids_are_unique(m: MetricsView, src: SocketAddr, target: Seq<char>, kind: ConnKind)
    requires
        m.ids_issued(),
        m.next_id < u64::MAX,
    ensures
        !m.registry.contains_key(m.next_id),
        m.registered(src, target, kind).ids_issued(),
        m.registered(src, target, kind).next_id > m.next_id,
{
}

/// Nothing but a registration changes which ids have been handed out.
pub proof fn ids_stay_issued(m: MetricsView, id: u64, n: u64, code: u8)
    requires
        m.ids_issued(),
    ensures
        m.unregistered(id).ids_issued(),
        m.with_up(id, n).ids_issued(),
        m.with_down(id, n).ids_issued(),
        m.with_error(code).ids_issued(),
        m.with_success().ids_issued(),
{
}

/// What can be done with metrics.
pub enum MetricsOp {
    Register(SocketAddr, Seq<char>, ConnKind),
    Unregister(u64),
    Up(u64, u64),
    Down(u64, u64),
    Error(u8),
    Success,
}

impl MetricsView {
    /// After `op`.
    pub open spec fn applied(self, op: MetricsOp) -> MetricsView {
        match op {
            MetricsOp::Register(src, target, kind) => self.registered(src, target, kind),
            MetricsOp::Unregister(id) => self.unregistered(id),
            MetricsOp::Up(id, n) => self.with_up(id, n),
            MetricsOp::Down(id, n) => self.with_down(id, n),
            MetricsOp::Error(code) => self.with_error(code),
            MetricsOp::Success => self.with_success(),
        }
    }
}

/// What new metrics become through `ops`.
pub open spec fn metrics_run(ops: Seq<MetricsOp>) -> MetricsView
    decreases ops.len(),
{
    if ops.len() == 0 {
        MetricsView::initial()
    } else {
        metrics_run(ops.drop_last()).applied(ops.last())
    }
}

/// How many of `ops` are registrations.
pub open spec fn registrations(ops: Seq<MetricsOp>) -> nat
    decreases ops.len(),
{
    if ops.len() == 0 {
        0
    } else {
        registrations(ops.drop_last()) + if ops.last() is Register {
            1nat
        } else {
            0nat
        }
    }
}

/// The id that a registration which follows the first `i` of `ops` gets.
pub open spec fn id_issued(ops: Seq<MetricsOp>, i: int) -> u64 {
    metrics_run(ops.take(i)).next_id
}

proof fn lemma_metrics_run(ops: Seq<MetricsOp>)
    requires
        registrations(ops) < u64::MAX,
    ensures
        metrics_run(ops).next_id == 1 + registrations(ops),
        metrics_run(ops).ids_issued(),
        metrics_run(ops).keyed_by_id(),
    decreases ops.len(),
{
    if ops.len() > 0 {
        lemma_metrics_run(ops.drop_last());
    }
}

proof fn lemma_registrations_grow(ops: Seq<MetricsOp>, i: int)
    requires
        0 <= i < ops.len(),
    ensures
        registrations(ops.take(i)) <= registrations(ops),
        ops[i] is Register ==> registrations(ops.take(i)) < registrations(ops),
    decreases ops.len(),
{
    let front = ops.drop_last();
    if i == front.len() {
        assert(ops.take(i) =~= front);
    } else {
        lemma_registrations_grow(front, i);
        assert(front.take(i) =~= ops.take(i));
        assert(front[i] == ops[i]);
    }
}

/// Whatever is done with metrics, a registration gets an id of 1 or more that no
/// earlier registration got, whether that connection is still registered or not.
/// There are `u64::MAX` such ids; only then do they start over.
pub proof fn ids_are_never_reused(ops: Seq<MetricsOp>, i: int, j: int)
    requires
        0 <= i < j < ops.len(),
        ops[i] is Register,
        ops[j] is Register,
        registrations(ops) <= u64::MAX,
    ensures
        1 <= id_issued(ops, i) < id_issued(ops, j),
        !metrics_run(ops.take(j)).registry.contains_key(id_issued(ops, j)),
{
    lemma_registrations_grow(ops, i);
    lemma_registrations_grow(ops, j);
    lemma_registrations_grow(ops.take(j), i);
    assert(ops.take(j).take(i) =~= ops.take(i));
    assert(ops.take(j)[i] == ops[i]);
    lemma_metrics_run(ops.take(i));
    lemma_metrics_run(ops.take(j));
}

/// A registration under a new id adds its connection, with no bytes moved yet, to
/// the list of active ones and leaves the others as they are; of the counters it
/// changes the total and the active count, each by one.
pub proof fn registrations_are_listed(
    m: MetricsView,
    list: Seq<ConnInfoView>,
    src: SocketAddr,
    target: Seq<char>,
    kind: ConnKind,
)
    requires
        m.registry.dom().finite(),
        !m.registry.contains_key(m.next_id),
        m.lists(list),
    ensures
        ({
            let id = m.next_id;
            let after = m.registered(src, target, kind);
            &&& after.lists(list.push(ConnInfoView { id, src, target, kind, up: 0, down: 0 }))
            &&& after.counters == (SnapshotView {
                total_conns: m.counters.total_conns.wrapping_add(1),
                active_conns: m.counters.active_conns.wrapping_add(1),
                ..m.counters
            })
        }),
{
    let id = m.next_id;
    let after = m.registered(src, target, kind);
    let longer = list.push(ConnInfoView { id, src, target, kind, up: 0, down: 0 });
    assert(after.registry.dom() =~= m.registry.dom().insert(id));
    assert forall|i: int| 0 <= i < longer.len() implies after.registry.contains_key(
        (#[trigger] longer[i]).id,
    ) && after.registry[longer[i].id] == longer[i] by {
        if i < list.len() {
            assert(longer[i] == list[i]);
        }
    }
    assert forall|i: int, j: int| 0 <= i < j < longer.len() implies (#[trigger] longer[i]).id != (
    #[trigger] longer[j]).id by {
        assert(longer[i] == list[i]);
        if j < list.len() {
            assert(longer[j] == list[j]);
        }
    }
    assert forall|other: u64| #[trigger] after.registry.contains_key(other) implies exists|i: int|
        0 <= i < longer.len() && (#[trigger] longer[i]).id == other by {
        if other == id {
            assert(longer[list.len() as int].id == other);
        } else {
            assert(m.registry.contains_key(other));
            let i = choose|i: int| 0 <= i < list.len() && (#[trigger] list[i]).id == other;
            assert(longer[i].id == other);
        }
    }
}

/// A connection that is registered, transfers bytes and is unregistered leaves
/// the registry and the active count as they were; the total stays counted.
pub proof fn unregister_undoes_register(
    m: MetricsView,
    src: SocketAddr,
    target: Seq<char>,
    kind: ConnKind,
    up: u64,
    down: u64,
)
    requires
        !m.registry.contains_key(m.next_id),
    ensures
        ({
            let id = m.next_id;
            let closed = m.registered(src, target, kind).with_up(id, up).with_down(
                id,
                down,
            ).unregistered(id);
            &&& closed.registry == m.registry
            &&& closed.counters.active_conns == m.counters.active_conns
            &&& closed.counters.total_conns == m.counters.total_conns.wrapping_add(1)
            &&& closed.counters.bytes_up == m.counters.bytes_up.wrapping_add(up)
            &&& closed.counters.bytes_down == m.counters.bytes_down.wrapping_add(down)
        }),
{
    let id = m.next_id;
    let closed = m.registered(src, target, kind).with_up(id, up).with_down(id, down).unregistered(
        id,
    );
    assert(closed.registry =~= m.registry);
}

/// The active count stays the number of registered connections as connections
/// come under new ids and registered ones go.
pub proof fn active_count_is_kept(
    m: MetricsView,
    src: SocketAddr,
    target: Seq<char>,
    kind: ConnKind,
    id: u64,
    n: u64,
    code: u8,
)
    requires
        m.active_counted(),
    ensures
        !m.registry.contains_key(m.next_id) && m.counters.active_conns < u64::MAX ==> m.registered(
            src,
            target,
            kind,
        ).active_counted(),
        m.registry.contains_key(id) ==> m.unregistered(id).active_counted(),
        m.with_up(id, n).active_counted(),
        m.with_down(id, n).active_counted(),
        m.with_error(code).active_counted(),
        m.with_success().active_counted(),
{
    if m.registry.contains_key(id) {
        assert(m.with_up(id, n).registry.dom() =~= m.registry.dom());
        assert(m.with_down(id, n).registry.dom() =~= m.registry.dom());
        assert(m.unregistered(id).registry.dom() =~= m.registry.dom().remove(id));
    }
    assert(m.registered(src, target, kind).registry.dom() =~= m.registry.dom().insert(m.next_id));
}

/// Bytes that went up are counted in the total and with their connection, where it
/// is registered; all else stays as it is.
pub proof fn sent_bytes_are_counted(m: MetricsView, id: u64, n: u64, other: u64)
    requires
        other != id,
    ensures
        ({
            let after = m.with_up(id, n);
            &&& after.counters.bytes_up == m.counters.bytes_up.wrapping_add(n)
            &&& after.counters == (SnapshotView {
                bytes_up: after.counters.bytes_up,
                ..m.counters
            })
            &&& after.next_id == m.next_id
            &&& after.registry.dom() == m.registry.dom()
            &&& m.registry.contains_key(id) ==> after.registry[id] == (ConnInfoView {
                up: m.registry[id].up.wrapping_add(n),
                ..m.registry[id]
            })
            &&& m.registry.contains_key(other) ==> after.registry[other] == m.registry[other]
        }),
{
    assert(m.with_up(id, n).registry.dom() =~= m.registry.dom());
}

/// Bytes that came down are counted in the total and with their connection, where
/// it is registered; all else stays as it is.
pub proof fn received_bytes_are_counted(m: MetricsView, id: u64, n: u64, other: u64)
    requires
        other != id,
    ensures
        ({
            let after = m.with_down(id, n);
            &&& after.counters.bytes_down == m.counters.bytes_down.wrapping_add(n)
            &&& after.counters == (SnapshotView {
                bytes_down: after.counters.bytes_down,
                ..m.counters
            })
            &&& after.next_id == m.next_id
            &&& after.registry.dom() == m.registry.dom()
            &&& m.registry.contains_key(id) ==> after.registry[id] == (ConnInfoView {
                down: m.registry[id].down.wrapping_add(n),
                ..m.registry[id]
            })
            &&& m.registry.contains_key(other) ==> after.registry[other] == m.registry[other]
        }),
{
    assert(m.with_down(id, n).registry.dom() =~= m.registry.dom());
}

/// A request that was served counts as one success, and one that failed as one
/// failure and one of its reply code, where that is a SOCKS5 one; all else stays as
/// it is.
pub proof fn outcomes_are_counted_once(m: MetricsView, code: u8, other: u8)
    requires
        m.counters.error_codes.len() == 9,
        code != other,
        other <= 8,
    ensures
        ({
            let served = m.with_success();
            let failed = m.with_error(code);
            &&& served == (MetricsView {
                counters: SnapshotView {
                    successes: m.counters.successes.wrapping_add(1),
                    ..m.counters
                },
                ..m
            })
            &&& failed.counters.failures == m.counters.failures.wrapping_add(1)
            &&& failed.counters.error_codes.len() == 9
            &&& failed.counters.error_codes[other as int] == m.counters.error_codes[other as int]
            &&& code <= 8 ==> failed.counters.error_codes[code as int]
                == m.counters.error_codes[code as int].wrapping_add(1)
            &&& failed == (MetricsView {
                counters: SnapshotView {
                    failures: failed.counters.failures,
                    error_codes: failed.counters.error_codes,
                    ..m.counters
                },
                ..m
            })
        }),
{
}

/// A connection that comes is one more in total and one more active, with nothing
/// transferred yet; one that goes is one active less. Neither touches any other
/// count or connection.
pub proof fn connections_come_and_go_alone(
    m: MetricsView,
    src: SocketAddr,
    target: Seq<char>,
    kind: ConnKind,
    id: u64,
    other: u64,
)
    requires
        other != id,
        other != m.next_id,
    ensures
        ({
            let came = m.registered(src, target, kind);
            let gone = m.unregistered(id);
            &&& came.registry[m.next_id] == (ConnInfoView {
                id: m.next_id,
                src,
                target,
                kind,
                up: 0,
                down: 0,
            })
            &&& came.registry.dom() == m.registry.dom().insert(m.next_id)
            &&& m.registry.contains_key(other) ==> came.registry[other] == m.registry[other]
            &&& came.next_id == m.next_id.wrapping_add(1)
            &&& came.counters == (SnapshotView {
                total_conns: m.counters.total_conns.wrapping_add(1),
                active_conns: m.counters.active_conns.wrapping_add(1),
                ..m.counters
            })
            &&& gone.registry.dom() == m.registry.dom().remove(id)
            &&& m.registry.contains_key(other) ==> gone.registry[other] == m.registry[other]
            &&& gone.next_id == m.next_id
            &&& gone.counters == (SnapshotView {
                active_conns: m.counters.active_conns.wrapping_sub(1),
                ..m.counters
            })
        }),
{
    assert(m.registered(src, target, kind).registry.dom() =~= m.registry.dom().insert(m.next_id));
    assert(m.unregistered(id).registry.dom() =~= m.registry.dom().remove(id));
}

/// A log line names who is connected to what under which id and how, which id has
/// gone, who has logged in or failed to, or the code and the words of an error.
pub proof fn log_lines_name_what_happened(
    id: u64,
    src: SocketAddr,
    target: Seq<char>,
    user: Seq<char>,
    code: u8,
    text: Seq<char>,
)
    ensures
        event_line(EventView::Connect { id, src, target, kind: ConnKind::Connect }) == "["@
            + decimal(id as nat) + "] "@ + "CONNECT"@ + " "@ + socket_text(src) + " -> "@ + target,
        event_line(EventView::Connect { id, src, target, kind: ConnKind::Udp }) == "["@ + decimal(
            id as nat,
        ) + "] "@ + "UDP"@ + " "@ + socket_text(src) + " -> "@ + target,
        event_line(EventView::Closed { id }) == "["@ + decimal(id as nat) + "] closed"@,
        event_line(EventView::Auth { ok: true, user }) == "auth ok: "@ + user,
        event_line(EventView::Auth { ok: false, user }) == "auth failed: "@ + user,
        event_line(EventView::Error { code, msg: text }) == "error 0x"@ + hex_byte(code) + ": "@
            + text,
        event_line(EventView::Log(text)) == text,
{
}

} // verus!
