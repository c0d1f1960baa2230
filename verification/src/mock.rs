//! Synthetic metrics generator for demos and screenshots.
//!
//! It drives the dashboard with fake connections, wave-shaped throughput and
//! lifecycle/error events through the same [`Metrics`] the real proxy uses —
//! **no real network traffic is involved**. At the end it unregisters its
//! synthetic connections so the dashboard returns to idle.

use vstd::prelude::*;

use crate::metrics::{event_views, ConnKind, Event, EventView, Metrics, MetricsView};
use crate::net::{IpAddr, Ipv4Addr, SocketAddr, SocketAddrV4};
use crate::text::{decimal, push_decimal};

verus! {

/// How often the generator advances (drives throughput + lifecycle), in
/// milliseconds.
pub const STEP_MS: u64 = 200;

/// Upper bound on simultaneously "active" synthetic connections.
pub const MAX_ACTIVE: usize = 12;

/// Bytes per step and connection at the peak of the wave.
pub const PEAK_BUDGET: u64 = 100_000;

/// Tiny dependency-free xorshift PRNG — enough variety for demo data.
pub struct Rng(pub u64);

/// The state that follows `x`.
pub open spec fn xorshift(x: u64) -> u64 {
    let a = x ^ (x << 13);
    let b = a ^ (a >> 7);
    b ^ (b << 17)
}

/// The value below `n` that a generator in state `x` draws (0 when `n == 0`).
pub open spec fn drawn(x: u64, n: u64) -> u64 {
    if n == 0 {
        0
    } else {
        xorshift(x) % n
    }
}

impl Rng {
    /// The next state, which is also the value drawn.
    pub fn next_u64(&mut self) -> (value: u64)
        ensures
            value == xorshift(old(self).0),
            final(self).0 == value,
    {
        let mut x: u64 = self.0;
        x = x ^ (x << 13);
        x = x ^ (x >> 7);
        x = x ^ (x << 17);
        self.0 = x;
        x
    }

    /// A value in `0..n` (returns 0 when `n == 0`).
    pub fn below(&mut self, n: u64) -> (value: u64)
        ensures
            value == drawn(old(self).0, n),
            final(self).0 == xorshift(old(self).0),
            n > 0 ==> value < n,
            n == 0 ==> value == 0,
    {
        let divisor: u64 = if n == 0 {
            1
        } else {
            n
        };
        let value: u64 = self.next_u64();
        value % divisor
    }
}

/// Mutable generator state, separated from the timer loop so a single tick
/// ([`Generator::step`]) is deterministic and unit-testable without real time.
pub struct Generator {
    rng: Rng,
    /// Currently "open" synthetic connections (id + kind).
    active: Vec<(u64, ConnKind)>,
}

/// What a [`Generator`] stands for.
#[verifier::ext_equal]
pub struct GeneratorView {
    pub rng: u64,
    pub active: Seq<(u64, ConnKind)>,
}

/// A generator, the metrics it drives, and the events that a tick has sent.
#[verifier::ext_equal]
pub struct Scene {
    pub gen: GeneratorView,
    pub metrics: MetricsView,
    pub events: Seq<EventView>,
}

impl View for Generator {
    type V = GeneratorView;

    closed spec fn view(&self) -> GeneratorView {
        GeneratorView { rng: self.rng.0, active: self.active@ }
    }
}

/// The name of target `i`.
pub open spec fn spec_target(i: u64) -> Seq<char> {
    match i {
        0 => "example.com:443"@,
        1 => "github.com:443"@,
        2 => "api.ipify.org:443"@,
        3 => "cdn.example.net:80"@,
        4 => "db.internal:5432"@,
        _ => "speed.example.com:443"@,
    }
}

/// The name of target `i`, of six.
fn target(i: u64) -> (name: &'static str)
    ensures
        name@ == spec_target(i),
{
    match i {
        0 => "example.com:443",
        1 => "github.com:443",
        2 => "api.ipify.org:443",
        3 => "cdn.example.net:80",
        4 => "db.internal:5432",
        _ => "speed.example.com:443",
    }
}

/// The name of user `i`.
pub open spec fn spec_user(i: u64) -> Seq<char> {
    match i {
        0 => "alice"@,
        1 => "bob"@,
        _ => "carol"@,
    }
}

/// The name of user `i`, of three.
fn user(i: u64) -> (name: &'static str)
    ensures
        name@ == spec_user(i),
{
    match i {
        0 => "alice",
        1 => "bob",
        _ => "carol",
    }
}

/// The address `10.0.a.b` at `port`.
pub open spec fn synthetic_addr(a: u64, b: u64, port: u64) -> SocketAddr {
    SocketAddr::spec_new(
        IpAddr::V4(Ipv4Addr { bits: (0x0a00_0000 + a * 0x100 + b) as u32 }),
        port as u16,
    )
}

impl Scene {
    /// After the generator has drawn a value.
    pub open spec fn drew(self) -> Scene {
        Scene { gen: GeneratorView { rng: xorshift(self.gen.rng), ..self.gen }, ..self }
    }

    /// The value below `n` that the generator draws next.
    pub open spec fn draw(self, n: u64) -> u64 {
        drawn(self.gen.rng, n)
    }

    /// After `event` was sent.
    pub open spec fn sent(self, event: EventView) -> Scene {
        Scene { events: self.events.push(event), ..self }
    }

    /// After a connection from `src` to `target` was opened.
    pub open spec fn opened(self, src: SocketAddr, target: Seq<char>, kind: ConnKind) -> Scene {
        let id = self.metrics.next_id;
        Scene {
            gen: GeneratorView { active: self.gen.active.push((id, kind)), ..self.gen },
            metrics: self.metrics.registered(src, target, kind),
            events: self.events.push(EventView::Connect { id, src, target, kind }),
        }
    }

    /// An auth event occasionally accompanies a new connection.
    pub open spec fn after_auth(self) -> Scene {
        let after = self.drew();
        if self.draw(100) < 30 {
            let ok = after.draw(100) < 85;
            let name = spec_user(after.drew().draw(3));
            after.drew().drew().sent(EventView::Auth { ok, user: name })
        } else {
            after
        }
    }

    /// A new connection is drawn: its kind, its source, then its target.
    pub open spec fn after_new(self) -> Scene {
        let kind = if self.draw(100) < 75 {
            ConnKind::Connect
        } else {
            ConnKind::Udp
        };
        let a = self.drew().draw(256);
        let b = self.drew().drew().draw(256);
        let port = self.drew().drew().drew().draw(60000);
        let chosen = self.drew().drew().drew().drew();
        let name = spec_target(chosen.draw(6));
        chosen.drew().opened(synthetic_addr(a, b, (1024 + port) as u64), name, kind).after_auth()
    }

    /// Maybe open a new connection.
    pub open spec fn after_opening(self) -> Scene {
        if self.gen.active.len() < MAX_ACTIVE {
            if self.draw(100) < 40 {
                self.drew().after_new()
            } else {
                self.drew()
            }
        } else {
            self
        }
    }

    /// Push bytes onto the first `n` active connections.
    pub open spec fn after_traffic(self, budget: u64, n: nat) -> Scene
        decreases n,
    {
        if n == 0 {
            self
        } else {
            let before = self.after_traffic(budget, (n - 1) as nat);
            let id = self.gen.active[n - 1].0;
            let up = (before.draw((budget / 8 + 1) as u64) + budget / 16) as u64;
            let down = (before.drew().draw((budget + 1) as u64) + budget / 4) as u64;
            Scene {
                metrics: before.metrics.with_up(id, up).with_down(id, down),
                ..before.drew().drew()
            }
        }
    }

    /// Maybe close a connection (counts as a success).
    pub open spec fn after_closing(self) -> Scene {
        if self.gen.active.len() > 0 {
            let after = self.drew();
            if self.draw(100) < 30 {
                let i = after.draw(self.gen.active.len() as u64) as int;
                let id = self.gen.active[i].0;
                Scene {
                    gen: GeneratorView {
                        rng: after.drew().gen.rng,
                        active: self.gen.active.remove(i),
                    },
                    metrics: self.metrics.unregistered(id).with_success(),
                    events: self.events.push(EventView::Closed { id }),
                }
            } else {
                after
            }
        } else {
            self
        }
    }

    /// Occasionally a request fails (drives the error histogram).
    pub open spec fn after_failing(self) -> Scene {
        let after = self.drew();
        if self.draw(100) < 12 {
            let code = (1 + after.draw(8)) as u8;
            Scene {
                metrics: self.metrics.with_error(code),
                ..after.drew().sent(
                    EventView::Error {
                        code,
                        msg: "synthetic error 0x0"@ + decimal(code as nat),
                    },
                )
            }
        } else {
            after
        }
    }

    /// One tick.
    pub open spec fn ticked(self, budget: u64) -> Scene {
        let opened = self.after_opening();
        opened.after_traffic(budget, opened.gen.active.len()).after_closing().after_failing()
    }
}

/// What becomes of `metrics` when the first `n` of `active` are unregistered.
pub open spec fn drained(metrics: MetricsView, active: Seq<(u64, ConnKind)>, n: nat) -> MetricsView
    decreases n,
{
    if n == 0 {
        metrics
    } else {
        drained(metrics, active, (n - 1) as nat).unregistered(active[n - 1].0)
    }
}

impl Generator {
    /// Create a generator with no connections. Every one draws the same values.
    pub fn new() -> (gen: Generator)
        ensures
            gen@ == (GeneratorView { rng: 0x9E37_79B9_7F4A_7C15, active: Seq::empty() }),
    {
        let gen = Generator { rng: Rng(0x9E37_79B9_7F4A_7C15), active: Vec::new() };
        assert(gen@.active =~= Seq::<(u64, ConnKind)>::empty());
        gen
    }

    /// How many synthetic connections are open.
    pub fn active_len(&self) -> (len: usize)
        ensures
            len == self@.active.len(),
    {
        self.active.len()
    }

    /// The generator, `metrics`, and `events` together.
    pub open spec fn scene(self, metrics: Metrics, events: Seq<Event>) -> Scene {
        Scene { gen: self@, metrics: metrics@, events: event_views(events) }
    }

    fn open_one(&mut self, metrics: &mut Metrics, events: &mut Vec<Event>)
        ensures
            final(self).scene(*final(metrics), final(events)@) == old(self).scene(
                *old(metrics),
                old(events)@,
            ).after_new(),
            old(metrics).wf() ==> final(metrics).wf(),
    {
        let ghost start = self.scene(*metrics, events@);
        let kind: ConnKind = if self.rng.below(100) < 75 {
            ConnKind::Connect
        } else {
            ConnKind::Udp
        };
        let a: u64 = self.rng.below(256);
        let b: u64 = self.rng.below(256);
        let port: u64 = 1024 + self.rng.below(60000);
        let bits: u32 = 0x0a00_0000 + a as u32 * 0x100 + b as u32;
        let src: SocketAddr = SocketAddr::new(IpAddr::V4(Ipv4Addr { bits }), port as u16);
        let name: String = target(self.rng.below(6)).to_owned();
        let id: u64 = metrics.register(src, name.clone(), kind);
        events.push(Event::Connect { id, src, target: name, kind });
        self.active.push((id, kind));
        let ghost opened = self.scene(*metrics, events@);
        proof {
            assert(src == synthetic_addr(a, b, port));
            assert(opened =~= start.drew().drew().drew().drew().drew().opened(src, name@, kind));
        }
        // Occasionally an auth event accompanies a new connection.
        if self.rng.below(100) < 30 {
            let ok: bool = self.rng.below(100) < 85;
            let name: String = user(self.rng.below(3)).to_owned();
            events.push(Event::Auth { ok, user: name });
        }
        assert(self.scene(*metrics, events@) =~= opened.after_auth());
    }

    fn push_traffic(&mut self, metrics: &mut Metrics, budget: u64)
        requires
            budget <= PEAK_BUDGET,
        ensures
            forall|events: Seq<Event>| #[trigger]
                final(self).scene(*final(metrics), events) == old(self).scene(
                    *old(metrics),
                    events,
                ).after_traffic(budget, old(self)@.active.len()),
            old(metrics).wf() ==> final(metrics).wf(),
    {
        let ghost none = Seq::<Event>::empty();
        let ghost start = self.scene(*metrics, none);
        let mut i: usize = 0;
        while i < self.active.len()
            invariant
                budget <= PEAK_BUDGET,
                i <= self.active@.len(),
                self.active@ == start.gen.active,
                start.gen.active == old(self)@.active,
                self.scene(*metrics, none) == start.after_traffic(budget, i as nat),
                old(metrics).wf() ==> metrics.wf(),
            decreases self.active@.len() - i,
        {
            let ghost before = self.scene(*metrics, none);
            let id: u64 = self.active[i].0;
            let up: u64 = self.rng.below(budget / 8 + 1) + budget / 16;
            let down: u64 = self.rng.below(budget + 1) + budget / 4;
            metrics.add_up(id, up);
            metrics.add_down(id, down);
            i += 1;
            assert(self.scene(*metrics, none) =~= start.after_traffic(budget, i as nat));
        }
        proof {
            assert forall|events: Seq<Event>| #[trigger]
                self.scene(*metrics, events) == old(self).scene(
                    *old(metrics),
                    events,
                ).after_traffic(budget, old(self)@.active.len()) by {
                lemma_traffic_ignores_events(
                    start,
                    event_views(events),
                    budget,
                    old(self)@.active.len(),
                );
                assert(old(self).scene(*old(metrics), events) =~= (Scene {
                    events: event_views(events),
                    ..start
                }));
                assert(self.scene(*metrics, events) =~= (Scene {
                    events: event_views(events),
                    ..self.scene(*metrics, none)
                }));
            }
        }
    }

    fn close_one(&mut self, metrics: &mut Metrics, events: &mut Vec<Event>)
        ensures
            final(self).scene(*final(metrics), final(events)@) == old(self).scene(
                *old(metrics),
                old(events)@,
            ).after_closing(),
            old(metrics).wf() ==> final(metrics).wf(),
    {
        let ghost start = self.scene(*metrics, events@);
        if self.active.len() > 0 && self.rng.below(100) < 30 {
            let i: usize = self.rng.below(self.active.len() as u64) as usize;
            let (id, _) = self.active.remove(i);
            metrics.unregister(id);
            metrics.record_success();
            events.push(Event::Closed { id });
        }
        assert(self.scene(*metrics, events@) =~= start.after_closing());
    }

    fn fail_one(&mut self, metrics: &mut Metrics, events: &mut Vec<Event>)
        ensures
            final(self).scene(*final(metrics), final(events)@) == old(self).scene(
                *old(metrics),
                old(events)@,
            ).after_failing(),
            old(metrics).wf() ==> final(metrics).wf(),
    {
        let ghost start = self.scene(*metrics, events@);
        if self.rng.below(100) < 12 {
            let code: u8 = 1 + self.rng.below(8) as u8;  // RFC reply codes 0x01..=0x08
            metrics.record_error(code);
            let mut msg: String = "synthetic error 0x0".to_owned();
            push_decimal(&mut msg, code as u128);
            events.push(Event::Error { code, msg });
        }
        assert(self.scene(*metrics, events@) =~= start.after_failing());
    }

    /// Advance one tick: maybe open/close connections, push bytes on the active
    /// ones, and occasionally emit auth/error events. `budget` is how many bytes
    /// the wave allows a connection in this tick. Returns the events to send.
    pub fn step(&mut self, metrics: &mut Metrics, budget: u64) -> (events: Vec<Event>)
        requires
            budget <= PEAK_BUDGET,
        ensures
            final(self).scene(*final(metrics), events@) == old(self).scene(
                *old(metrics),
                Seq::empty(),
            ).ticked(budget),
            old(metrics).wf() ==> final(metrics).wf(),
    {
        let mut events: Vec<Event> = Vec::new();
        assert(events@ =~= Seq::<Event>::empty());
        // Maybe open a new connection.
        let ghost start = self.scene(*metrics, events@);
        if self.active.len() < MAX_ACTIVE && self.rng.below(100) < 40 {
            assert(self.scene(*metrics, events@) =~= start.drew());
            self.open_one(metrics, &mut events);
        }
        assert(self.scene(*metrics, events@) =~= start.after_opening());
        self.push_traffic(metrics, budget);
        self.close_one(metrics, &mut events);
        self.fail_one(metrics, &mut events);
        events
    }

    /// Unregister all remaining synthetic connections.
    pub fn drain(&mut self, metrics: &mut Metrics)
        ensures
            final(self)@ == (GeneratorView { active: Seq::empty(), ..old(self)@ }),
            final(metrics)@ == drained(
                old(metrics)@,
                old(self)@.active,
                old(self)@.active.len(),
            ),
            old(metrics).wf() ==> final(metrics).wf(),
    {
        let mut i: usize = 0;
        while i < self.active.len()
            invariant
                i <= self.active@.len(),
                self@ == old(self)@,
                metrics@ == drained(old(metrics)@, self.active@, i as nat),
                old(metrics).wf() ==> metrics.wf(),
            decreases self.active@.len() - i,
        {
            metrics.unregister(self.active[i].0);
            i += 1;
        }
        self.active = Vec::new();
        assert(self@ =~= (GeneratorView { active: Seq::empty(), ..old(self)@ }));
    }
}

proof fn lemma_traffic_ignores_events(scene: Scene, events: Seq<EventView>, budget: u64, n: nat)
    ensures
        (Scene { events, ..scene }).after_traffic(budget, n) == (Scene {
            events,
            ..scene.after_traffic(budget, n)
        }),
        scene.after_traffic(budget, n).gen.active == scene.gen.active,
        scene.after_traffic(budget, n).metrics.counters.active_conns
            == scene.metrics.counters.active_conns,
    decreases n,
{
    if n > 0 {
        lemma_traffic_ignores_events(scene, events, budget, (n - 1) as nat);
    }
}

/// A tick keeps at most [`MAX_ACTIVE`] connections open, and moves the active
/// count by just as many as it opens and closes.
pub proof fn ticks_keep_the_count(scene: Scene, budget: u64)
    requires
        scene.gen.active.len() <= MAX_ACTIVE,
        scene.gen.active.len() <= scene.metrics.counters.active_conns < u64::MAX,
    ensures
        scene.ticked(budget).gen.active.len() <= MAX_ACTIVE,
        scene.ticked(budget).metrics.counters.active_conns - scene.ticked(budget).gen.active.len()
            == scene.metrics.counters.active_conns - scene.gen.active.len(),
{
    let opened = scene.after_opening();
    let busy = opened.after_traffic(budget, opened.gen.active.len());
    lemma_traffic_ignores_events(opened, opened.events, budget, opened.gen.active.len());
    let closed = busy.after_closing();
    if busy.gen.active.len() > 0 {
        let n = busy.gen.active.len() as u64;
        let i = busy.drew().draw(n);
        assert(i < n) by (nonlinear_arith)
            requires
                i == xorshift(busy.drew().gen.rng) % n,
                n > 0,
        ;
    }
}

impl Scene {
    /// Whether the open connections are not too many, and each is registered
    /// under an id of its own.
    pub open spec fn tidy(self) -> bool {
        let active = self.gen.active;
        &&& active.len() <= MAX_ACTIVE
        &&& forall|i: int|
            0 <= i < active.len() ==> self.metrics.registry.contains_key((#[trigger] active[i]).0)
        &&& forall|i: int, j: int|
            0 <= i < j < active.len() ==> (#[trigger] active[i]).0 != (#[trigger] active[j]).0
    }

    /// Whether `opened` connections came and `closed` ones went between this and
    /// `after`, each of the latter as a success.
    pub open spec fn moved(self, after: Scene, opened: u64, closed: u64) -> bool {
        let before = self.metrics.counters;
        let now = after.metrics.counters;
        &&& after.gen.active.len() == self.gen.active.len() + opened - closed
        &&& now.total_conns == before.total_conns.wrapping_add(opened)
        &&& now.active_conns == before.active_conns.wrapping_add(opened).wrapping_sub(closed)
        &&& now.successes == before.successes.wrapping_add(closed)
    }

    /// Whether one request failed between this and `after`, with reply code
    /// `code`.
    pub open spec fn failed_with(self, after: Scene, code: u8) -> bool {
        let before = self.metrics.counters;
        let now = after.metrics.counters;
        &&& 1 <= code <= 8
        &&& now.failures == before.failures.wrapping_add(1)
        &&& now.error_codes == before.error_codes.update(
            code as int,
            before.error_codes[code as int].wrapping_add(1),
        )
    }

    /// Whether no request failed between this and `after`.
    pub open spec fn none_failed(self, after: Scene) -> bool {
        let before = self.metrics.counters;
        let now = after.metrics.counters;
        now.failures == before.failures && now.error_codes == before.error_codes
    }
}

/// How often the first `n` reply codes from 0x01 on were counted.
pub open spec fn codes_counted(codes: Seq<u64>, n: nat) -> nat
    decreases n,
{
    if n == 0 {
        0
    } else {
        codes_counted(codes, (n - 1) as nat) + codes[n as int] as nat
    }
}

proof fn lemma_codes_counted(codes: Seq<u64>, code: int, n: nat)
    requires
        1 <= code <= 8,
        n <= 8,
        codes.len() == 9,
        codes[code] < u64::MAX,
    ensures
        codes_counted(codes.update(code, (codes[code] + 1) as u64), n) == codes_counted(codes, n)
            + if code <= n {
            1nat
        } else {
            0nat
        },
    decreases n,
{
    if n > 0 {
        lemma_codes_counted(codes, code, (n - 1) as nat);
    }
}

impl Scene {
    /// Whether the histogram has gained, in the codes from 0x01 to 0x08 together,
    /// what the count of failures has gained since this, as long as no counter
    /// has wrapped around; and nothing in code 0x00.
    pub open spec fn histogram_follows(self, after: Scene) -> bool {
        let before = self.metrics.counters;
        let now = after.metrics.counters;
        &&& now.error_codes.len() == 9
        &&& now.error_codes[0] == before.error_codes[0]
        &&& before.failures < u64::MAX && (forall|i: int|
            1 <= i <= 8 ==> (#[trigger] before.error_codes[i]) < u64::MAX) ==> now.failures
            - before.failures == codes_counted(now.error_codes, 8) - codes_counted(
            before.error_codes,
            8,
        )
    }
}

proof fn lemma_histogram_follows(scene: Scene, after: Scene, code: u8)
    requires
        scene.failed_with(after, code),
        scene.metrics.counters.error_codes.len() == 9,
    ensures
        scene.histogram_follows(after),
{
    let codes = scene.metrics.counters.error_codes;
    if codes[code as int] < u64::MAX {
        lemma_codes_counted(codes, code as int, 8);
    }
}

proof fn lemma_opening(scene: Scene)
    requires
        scene.tidy(),
        !scene.metrics.registry.contains_key(scene.metrics.next_id),
    ensures
        scene.after_opening().tidy(),
        scene.moved(scene.after_opening(), 0, 0) || scene.moved(scene.after_opening(), 1, 0),
        scene.none_failed(scene.after_opening()),
        scene.metrics.ids_issued() && scene.metrics.next_id < u64::MAX
            ==> scene.after_opening().metrics.ids_issued(),
{
    let after = scene.after_opening();
    let id = scene.metrics.next_id;
    if after.gen.active != scene.gen.active {
        let kind = after.gen.active.last().1;
        assert(after.gen.active == scene.gen.active.push((id, kind)));
        assert forall|i: int, j: int| 0 <= i < j < after.gen.active.len() implies (
        #[trigger] after.gen.active[i]).0 != (#[trigger] after.gen.active[j]).0 by {
            assert(after.gen.active[i] == scene.gen.active[i]);
            assert(scene.metrics.registry.contains_key(scene.gen.active[i].0));
        }
        assert forall|i: int|
            0 <= i < after.gen.active.len() implies after.metrics.registry.contains_key(
            (#[trigger] after.gen.active[i]).0,
        ) by {
            if i < scene.gen.active.len() {
                assert(after.gen.active[i] == scene.gen.active[i]);
            }
        }
    }
}

proof fn lemma_traffic(scene: Scene, budget: u64, n: nat)
    requires
        n <= scene.gen.active.len(),
    ensures
        ({
            let after = scene.after_traffic(budget, n);
            &&& after.gen.active == scene.gen.active
            &&& after.metrics.registry.dom() == scene.metrics.registry.dom()
            &&& after.metrics.next_id == scene.metrics.next_id
            &&& scene.moved(after, 0, 0)
            &&& scene.none_failed(after)
        }),
    decreases n,
{
    if n > 0 {
        lemma_traffic(scene, budget, (n - 1) as nat);
        let before = scene.after_traffic(budget, (n - 1) as nat);
        let after = scene.after_traffic(budget, n);
        assert(after.metrics.registry.dom() =~= before.metrics.registry.dom());
    }
}

proof fn lemma_closing(scene: Scene)
    requires
        scene.tidy(),
    ensures
        scene.after_closing().tidy(),
        scene.moved(scene.after_closing(), 0, 0) || scene.moved(scene.after_closing(), 0, 1),
        scene.none_failed(scene.after_closing()),
        scene.metrics.ids_issued() ==> scene.after_closing().metrics.ids_issued(),
{
    let after = scene.after_closing();
    let active = scene.gen.active;
    if active.len() > 0 && scene.draw(100) < 30 {
        let n = active.len() as u64;
        let i = scene.drew().draw(n);
        assert(i < n) by (nonlinear_arith)
            requires
                i == xorshift(scene.drew().gen.rng) % n,
                n > 0,
        ;
        let left = active.remove(i as int);
        assert(after.gen.active == left);
        assert forall|a: int| 0 <= a < left.len() implies after.metrics.registry.contains_key(
            (#[trigger] left[a]).0,
        ) by {
            let k = if a < i {
                a
            } else {
                a + 1
            };
            assert(left[a] == active[k]);
        }
        assert forall|a: int, b: int| 0 <= a < b < left.len() implies (#[trigger] left[a]).0 != (
        #[trigger] left[b]).0 by {
            let k = if a < i {
                a
            } else {
                a + 1
            };
            let l = if b < i {
                b
            } else {
                b + 1
            };
            assert(left[a] == active[k] && left[b] == active[l]);
        }
    }
}

proof fn lemma_failing(scene: Scene)
    ensures
        ({
            let after = scene.after_failing();
            &&& after.gen.active == scene.gen.active
            &&& after.metrics.registry == scene.metrics.registry
            &&& after.metrics.next_id == scene.metrics.next_id
            &&& scene.moved(after, 0, 0)
            &&& scene.none_failed(after) || exists|code: u8| #[trigger]
                scene.failed_with(after, code)
        }),
{
    let after = scene.after_failing();
    if scene.draw(100) < 12 {
        let drawn = scene.drew().draw(8);
        assert(drawn < 8);
        let code = (1 + drawn) as u8;
        assert(scene.failed_with(after, code));
    }
}

/// A tick opens at most one connection and closes at most one, each closed one as
/// a success; the open ones stay registered under distinct ids and not too many;
/// and at most one request fails, with a reply code from 0x01 to 0x08 that is
/// counted in the histogram just as the failure is. Only ids that start over, one
/// of which is still registered, can upset this.
#[verifier::spinoff_prover]
pub proof fn ticks_keep_the_scene_tidy(scene: Scene, budget: u64)
    requires
        scene.tidy(),
        !scene.metrics.registry.contains_key(scene.metrics.next_id),
        scene.metrics.counters.error_codes.len() == 9,
    ensures
        scene.ticked(budget).tidy(),
        exists|opened: u64, closed: u64|
            opened <= 1 && closed <= 1 && #[trigger] scene.moved(
                scene.ticked(budget),
                opened,
                closed,
            ),
        scene.none_failed(scene.ticked(budget)) || exists|code: u8| #[trigger]
            scene.failed_with(scene.ticked(budget), code),
        scene.histogram_follows(scene.ticked(budget)),
        scene.metrics.ids_issued() && scene.metrics.next_id < u64::MAX ==> scene.ticked(
            budget,
        ).metrics.ids_issued(),
{
    let opened = scene.after_opening();
    let n = opened.gen.active.len();
    let busy = opened.after_traffic(budget, n);
    let closed = busy.after_closing();
    let after = closed.after_failing();
    lemma_opening(scene);
    lemma_traffic(opened, budget, n);
    assert(busy.tidy()) by {
        assert forall|i: int| 0 <= i < busy.gen.active.len() implies busy.metrics.registry.contains_key(
            (#[trigger] busy.gen.active[i]).0,
        ) by {
            assert(opened.metrics.registry.dom().contains(opened.gen.active[i].0));
        }
    }
    assert(opened.metrics.ids_issued() ==> busy.metrics.ids_issued()) by {
        if opened.metrics.ids_issued() {
            assert forall|id: u64| #[trigger] busy.metrics.registry.contains_key(id) implies 1 <= id
                < busy.metrics.next_id by {
                assert(opened.metrics.registry.contains_key(id));
            }
        }
    }
    lemma_closing(busy);
    lemma_failing(closed);
    let came: u64 = if scene.moved(opened, 1, 0) {
        1
    } else {
        0
    };
    let went: u64 = if busy.moved(closed, 0, 1) {
        1
    } else {
        0
    };
    assert(scene.moved(after, came, went));
    if !scene.none_failed(after) {
        let code = choose|code: u8| #[trigger] closed.failed_with(after, code);
        assert(scene.failed_with(after, code));
        lemma_histogram_follows(scene, after, code);
    }
}

/// Draining gives back every connection that the generator still counts as
/// active.
pub proof fn draining_empties_the_count(
    metrics: MetricsView,
    active: Seq<(u64, ConnKind)>,
    n: nat,
)
    requires
        n <= active.len(),
        n <= metrics.counters.active_conns,
    ensures
        drained(metrics, active, n).counters.active_conns == metrics.counters.active_conns - n,
        forall|i: int|
            0 <= i < n ==> !drained(metrics, active, n).registry.contains_key(
                (#[trigger] active[i]).0,
            ),
        forall|id: u64| #[trigger]
            drained(metrics, active, n).registry.contains_key(id) ==> metrics.registry.contains_key(
                id,
            ),
    decreases n,
{
    if n > 0 {
        draining_empties_the_count(metrics, active, (n - 1) as nat);
    }
}

/// What a generator whose state is `x` draws below `n`, after `skipped` draws.
pub open spec fn nth_draw(x: u64, skipped: nat, n: u64) -> u64
    decreases skipped,
{
    if skipped == 0 {
        (xorshift(x) % n) as u64
    } else {
        nth_draw(xorshift(x), (skipped - 1) as nat, n)
    }
}

/// A connection is opened on forty draws of a hundred, while there is room: three
/// in four a CONNECT, from a port of 10.0.0.0/16 that is not a system port, to one
/// of the targets; it is registered and announced as such.
pub proof fn openings_follow_the_draws(scene: Scene)
    ensures
        ({
            let x = scene.gen.rng;
            let after = scene.after_opening();
            let id = scene.metrics.next_id;
            let kind = if nth_draw(x, 1, 100) < 75 {
                ConnKind::Connect
            } else {
                ConnKind::Udp
            };
            let src = SocketAddr::V4(
                SocketAddrV4 {
                    ip: Ipv4Addr {
                        bits: (10 * 0x100_0000 + nth_draw(x, 2, 256) * 0x100 + nth_draw(
                            x,
                            3,
                            256,
                        )) as u32,
                    },
                    port: (1024 + nth_draw(x, 4, 60000)) as u16,
                },
            );
            let name = spec_target(nth_draw(x, 5, 6));
            let event = EventView::Connect { id, src, target: name, kind };
            if scene.gen.active.len() < 12 && nth_draw(x, 0, 100) < 40 {
                &&& after.gen.active == scene.gen.active.push((id, kind))
                &&& after.metrics == scene.metrics.registered(src, name, kind)
                &&& nth_draw(x, 6, 100) >= 30 ==> after.events == scene.events.push(event)
                &&& nth_draw(x, 6, 100) < 30 ==> after.events == scene.events.push(event).push(
                    EventView::Auth {
                        ok: nth_draw(x, 7, 100) < 85,
                        user: spec_user(nth_draw(x, 8, 3)),
                    },
                )
            } else {
                &&& after.gen.active == scene.gen.active
                &&& after.metrics == scene.metrics
                &&& after.events == scene.events
            }
        }),
{
    reveal_with_fuel(nth_draw, 10);
}

/// A connection is closed, as a success, on thirty draws of a hundred while there
/// is one, and a request fails on twelve of a hundred, with a reply code from 0x01
/// to 0x08; each is announced as such.
pub proof fn closings_and_failures_follow_the_draws(scene: Scene)
    requires
        scene.gen.active.len() <= MAX_ACTIVE,
    ensures
        ({
            let x = scene.gen.rng;
            let after = scene.after_closing();
            let i = nth_draw(x, 1, scene.gen.active.len() as u64) as int;
            if scene.gen.active.len() > 0 && nth_draw(x, 0, 100) < 30 {
                let id = scene.gen.active[i].0;
                &&& after.gen.active == scene.gen.active.remove(i)
                &&& after.metrics == scene.metrics.unregistered(id).with_success()
                &&& after.events == scene.events.push(EventView::Closed { id })
            } else {
                &&& after.gen.active == scene.gen.active
                &&& after.metrics == scene.metrics
                &&& after.events == scene.events
            }
        }),
        ({
            let x = scene.gen.rng;
            let after = scene.after_failing();
            let code = (1 + nth_draw(x, 1, 8)) as u8;
            if nth_draw(x, 0, 100) < 12 {
                &&& after.gen.active == scene.gen.active
                &&& after.metrics == scene.metrics.with_error(code)
                &&& after.events == scene.events.push(
                    EventView::Error {
                        code,
                        msg: "synthetic error 0x0"@ + decimal(code as nat),
                    },
                )
            } else {
                &&& after.gen.active == scene.gen.active
                &&& after.metrics == scene.metrics
                &&& after.events == scene.events
            }
        }),
{
    reveal_with_fuel(nth_draw, 3);
}

/// Traffic reaches the active connections one after the other: each sends from a
/// sixteenth to three sixteenths of the budget and receives from a quarter to five
/// quarters of it, and nothing else happens.
pub proof fn traffic_follows_the_budget(scene: Scene, budget: u64, n: nat)
    requires
        n < scene.gen.active.len(),
        budget <= PEAK_BUDGET,
    ensures
        scene.after_traffic(budget, 0) == scene,
        ({
            let before = scene.after_traffic(budget, n);
            let after = scene.after_traffic(budget, n + 1);
            let id = scene.gen.active[n as int].0;
            exists|up: u64, down: u64|
                budget / 16 <= up <= budget / 16 + budget / 8 && budget / 4 <= down <= budget / 4
                    + budget && after.metrics == #[trigger] before.metrics.with_up(
                    id,
                    up,
                ).with_down(id, down)
        }),
        scene.after_traffic(budget, n + 1).gen.active == scene.after_traffic(budget, n).gen.active,
        scene.after_traffic(budget, n + 1).events == scene.after_traffic(budget, n).events,
{
    let before = scene.after_traffic(budget, n);
    let id = scene.gen.active[n as int].0;
    let most_up = (budget / 8 + 1) as u64;
    let most_down = (budget + 1) as u64;
    let up = (before.draw(most_up) + budget / 16) as u64;
    let down = (before.drew().draw(most_down) + budget / 4) as u64;
    let x = xorshift(before.gen.rng);
    let y = xorshift(before.drew().gen.rng);
    assert(x % most_up < most_up) by (nonlinear_arith)
        requires
            most_up > 0,
    ;
    assert(y % most_down < most_down) by (nonlinear_arith)
        requires
            most_down > 0,
    ;
    assert(scene.after_traffic(budget, n + 1).metrics == before.metrics.with_up(id, up).with_down(
        id,
        down,
    ));
}

/// Each target and each user is named by its index.
pub proof fn names_go_by_index(i: u64)
    ensures
        i < 6 ==> spec_target(i) == seq![
            "example.com:443"@,
            "github.com:443"@,
            "api.ipify.org:443"@,
            "cdn.example.net:80"@,
            "db.internal:5432"@,
            "speed.example.com:443"@,
        ][i as int],
        i < 3 ==> spec_user(i) == seq!["alice"@, "bob"@, "carol"@][i as int],
{
}

} // verus!
