//! What the dashboard makes of samples, events and keys.

use vstd::multiset::*;
use vstd::prelude::*;

use crate::metrics::{ConnInfo, Snapshot, SnapshotView};
use crate::ring::pushed;
use crate::text::{decimal, push_decimal};
use crate::tui::widgets::LogRing;

verus! {

/// How often the dashboard re-samples metrics and redraws, in milliseconds.
pub const TICK_MS: u64 = 250;

/// Maximum number of log lines retained in the scrolling panel.
pub const LOG_CAPACITY: usize = 500;

/// How far a counter has come from `last` to `now`; nothing where it has wrapped
/// around in between.
pub open spec fn gained(last: u64, now: u64) -> u64 {
    if now >= last {
        (now - last) as u64
    } else {
        0
    }
}

/// How many bytes went up and down between two samples.
pub fn transferred(last: &Snapshot, now: &Snapshot) -> (bytes: (u64, u64))
    ensures
        bytes.0 == gained(last.bytes_up, now.bytes_up),
        bytes.1 == gained(last.bytes_down, now.bytes_down),
{
    let up: u64 = if now.bytes_up >= last.bytes_up {
        now.bytes_up - last.bytes_up
    } else {
        0
    };
    let down: u64 = if now.bytes_down >= last.bytes_down {
        now.bytes_down - last.bytes_down
    } else {
        0
    };
    (up, down)
}

/// `sorted` with `info` put behind all that its id does not precede.
pub open spec fn inserted(sorted: Seq<ConnInfo>, info: ConnInfo) -> Seq<ConnInfo>
    decreases sorted.len(),
{
    if sorted.len() == 0 || sorted.last().id <= info.id {
        sorted.push(info)
    } else {
        inserted(sorted.drop_last(), info).push(sorted.last())
    }
}

/// `list` in order of ids, those of one id in the order that they had.
pub open spec fn sorted_by_id(list: Seq<ConnInfo>) -> Seq<ConnInfo>
    decreases list.len(),
{
    if list.len() == 0 {
        list
    } else {
        inserted(sorted_by_id(list.drop_last()), list.last())
    }
}

proof fn lemma_inserted_at(sorted: Seq<ConnInfo>, info: ConnInfo, i: int)
    requires
        0 <= i <= sorted.len(),
        i > 0 ==> sorted[i - 1].id <= info.id,
        forall|j: int| i <= j < sorted.len() ==> (#[trigger] sorted[j]).id > info.id,
    ensures
        inserted(sorted, info) == sorted.insert(i, info),
    decreases sorted.len(),
{
    if i < sorted.len() {
        let front = sorted.drop_last();
        lemma_inserted_at(front, info, i);
        assert(sorted.last().id > info.id);
        assert(inserted(sorted, info) =~= sorted.insert(i, info));
    } else {
        assert(sorted.push(info) =~= sorted.insert(i, info));
    }
}

/// Sort connections by id for the table.
pub fn sort_connections(list: Vec<ConnInfo>) -> (sorted: Vec<ConnInfo>)
    ensures
        sorted@ == sorted_by_id(list@),
{
    let mut sorted: Vec<ConnInfo> = Vec::new();
    let mut n: usize = 0;
    assert(list@.take(0) =~= Seq::<ConnInfo>::empty());
    while n < list.len()
        invariant
            n <= list.len(),
            sorted@ == sorted_by_id(list@.take(n as int)),
        decreases list.len() - n,
    {
        let info: ConnInfo = list[n].clone();
        let mut i: usize = sorted.len();
        while i > 0 && sorted[i - 1].id > info.id
            invariant
                i <= sorted@.len(),
                forall|j: int| i <= j < sorted@.len() ==> (#[trigger] sorted@[j]).id > info.id,
            decreases i,
        {
            i -= 1;
        }
        proof {
            lemma_inserted_at(sorted@, info, i as int);
            assert(list@.take(n + 1).drop_last() =~= list@.take(n as int));
        }
        sorted.insert(i, info);
        n += 1;
    }
    assert(list@.take(list@.len() as int) =~= list@);
    sorted
}

proof fn lemma_inserted(sorted: Seq<ConnInfo>, info: ConnInfo)
    requires
        forall|i: int, j: int|
            0 <= i <= j < sorted.len() ==> (#[trigger] sorted[i]).id <= (#[trigger] sorted[j]).id,
    ensures
        ({
            let after = inserted(sorted, info);
            &&& forall|i: int, j: int|
                0 <= i <= j < after.len() ==> (#[trigger] after[i]).id <= (#[trigger] after[j]).id
            &&& after.to_multiset() == sorted.to_multiset().insert(info)
            &&& after.len() == sorted.len() + 1
            &&& forall|i: int|
                0 <= i < after.len() ==> (#[trigger] after[i]) == info || sorted.contains(after[i])
        }),
    decreases sorted.len(),
{
    broadcast use vstd::seq_lib::group_to_multiset_ensures;

    let after = inserted(sorted, info);
    if sorted.len() == 0 || sorted.last().id <= info.id {
        assert forall|i: int| 0 <= i < after.len() implies (#[trigger] after[i]) == info
            || sorted.contains(after[i]) by {
            if i < sorted.len() {
                assert(sorted[i] == after[i]);
            }
        }
    } else {
        let front = sorted.drop_last();
        let last = sorted.last();
        lemma_inserted(front, info);
        let rest = inserted(front, info);
        assert(sorted =~= front.push(last));
        assert(rest.push(last).to_multiset() =~= rest.to_multiset().insert(last));
        assert(sorted.to_multiset() =~= front.to_multiset().insert(last));
        assert(after.to_multiset() =~= sorted.to_multiset().insert(info));
        assert forall|i: int| 0 <= i < after.len() implies (#[trigger] after[i]) == info
            || sorted.contains(after[i]) by {
            if i < rest.len() {
                assert(rest[i] == after[i]);
                if front.contains(after[i]) {
                    let k = front.index_of(after[i]);
                    assert(sorted[k] == after[i]);
                }
            } else {
                assert(sorted[sorted.len() - 1] == after[i]);
            }
        }
        assert forall|i: int, j: int| 0 <= i <= j < after.len() implies (#[trigger] after[i]).id <= (
        #[trigger] after[j]).id by {
            if j < rest.len() {
                assert(after[i] == rest[i] && after[j] == rest[j]);
            } else if i < rest.len() {
                assert(after[i] == rest[i]);
                if rest[i] != info {
                    let k = front.index_of(rest[i]);
                    assert(sorted[k] == rest[i]);
                }
            }
        }
    }
}

/// Sorting puts the connections in order of their ids, and neither loses nor
/// adds one.
pub proof fn sorting_orders_and_keeps_all(list: Seq<ConnInfo>)
    ensures
        forall|i: int, j: int|
            0 <= i <= j < sorted_by_id(list).len() ==> (#[trigger] sorted_by_id(list)[i]).id <= (
            #[trigger] sorted_by_id(list)[j]).id,
        sorted_by_id(list).to_multiset() == list.to_multiset(),
        sorted_by_id(list).len() == list.len(),
    decreases list.len(),
{
    broadcast use vstd::seq_lib::group_to_multiset_ensures;

    if list.len() > 0 {
        let front = list.drop_last();
        sorting_orders_and_keeps_all(front);
        lemma_inserted(sorted_by_id(front), list.last());
        assert(list =~= front.push(list.last()));
    }
}

/// Everything that the renderer needs for a single frame, but for the rates that
/// follow from `up_delta` and `down_delta`.
pub struct DashboardState {
    /// Most recent global counters sample.
    pub snapshot: Snapshot,
    /// Bytes that went up since the sample before.
    pub up_delta: u64,
    /// Bytes that went down since the sample before.
    pub down_delta: u64,
    /// Scrolling log buffer.
    pub log: LogRing,
    /// Active connections at the last sample, in order of their ids.
    pub connections: Vec<ConnInfo>,
    /// Optional listen address shown in the title bar.
    pub listen_addr: Option<String>,
    /// The sample that the next one is compared with.
    pub last: Snapshot,
}

impl DashboardState {
    /// Nothing was sampled yet: zeroed counters, an empty log, no connections.
    /// The first sample will be compared with `last`.
    pub fn new(listen_addr: Option<String>, last: Snapshot) -> (state: DashboardState)
        ensures
            state.snapshot@ == SnapshotView::zero(),
            state.up_delta == 0,
            state.down_delta == 0,
            state.log@ == Seq::<String>::empty(),
            state.log.capacity() == LOG_CAPACITY,
            state.log.wf(),
            state.connections@.len() == 0,
            state.listen_addr == listen_addr,
            state.last == last,
    {
        DashboardState {
            snapshot: Snapshot::default(),
            up_delta: 0,
            down_delta: 0,
            log: LogRing::new(LOG_CAPACITY),
            connections: Vec::new(),
            listen_addr,
            last,
        }
    }

    /// Take in a sample of the counters and of the active connections.
    pub fn sample(&mut self, snapshot: Snapshot, connections: Vec<ConnInfo>)
        ensures
            final(self).snapshot == snapshot,
            final(self).last == snapshot,
            final(self).up_delta == gained(old(self).last.bytes_up, snapshot.bytes_up),
            final(self).down_delta == gained(old(self).last.bytes_down, snapshot.bytes_down),
            final(self).connections@ == sorted_by_id(connections@),
            final(self).log == old(self).log,
            final(self).listen_addr == old(self).listen_addr,
    {
        let (up, down) = transferred(&self.last, &snapshot);
        self.up_delta = up;
        self.down_delta = down;
        self.connections = sort_connections(connections);
        self.snapshot = snapshot;
        self.last = snapshot;
    }
}

/// What the event bus has for the log.
#[derive(Debug, PartialEq, Eq)]
pub enum BusRead {
    /// An event, formatted as a line.
    Line(String),
    /// The dashboard fell behind and missed this many events.
    Lagged(u64),
    /// Nothing is queued.
    Empty,
    /// The bus is gone.
    Closed,
}

/// The line that says that `n` events were missed.
pub open spec fn lag_text(n: u64) -> Seq<char> {
    "(log lagged, dropped "@ + decimal(n as nat) + " events)"@
}

/// Take in one read of the event bus, recording lag if the dashboard fell behind.
/// Returns whether to read on.
pub fn drain_events(log: &mut LogRing, read: BusRead) -> (more: bool)
    requires
        old(log).wf(),
    ensures
        final(log).wf(),
        final(log).capacity() == old(log).capacity(),
        more == (read is Line || read is Lagged),
        match read {
            BusRead::Line(line) => final(log)@ == pushed(old(log)@, old(log).capacity(), line),
            BusRead::Lagged(n) => exists|line: String| #[trigger]
                pushed(old(log)@, old(log).capacity(), line) == final(log)@ && line@ == lag_text(n),
            _ => final(log)@ == old(log)@,
        },
{
    match read {
        BusRead::Line(line) => {
            log.push(line);
            true
        },
        BusRead::Lagged(n) => {
            let mut line: String = "(log lagged, dropped ".to_owned();
            push_decimal(&mut line, n as u128);
            line.append(" events)");
            log.push(line);
            true
        },
        BusRead::Empty => false,
        BusRead::Closed => false,
    }
}

/// What a key asks of the dashboard.
#[derive(Debug, Clone, Copy, PartialEq, Eq, Structural)]
pub enum KeyAction {
    Quit,
}

/// The action of a key event: `q` or Ctrl-C quits, on presses only (some
/// terminals also report releases and repeats). `key` is the character of the
/// key, where it has one.
pub fn key_action(press: bool, key: Option<char>, control: bool) -> (action: Option<KeyAction>)
    ensures
        action == (if press && (key == Some('q') || (key == Some('c') && control)) {
            Some(KeyAction::Quit)
        } else {
            None
        }),
{
    if !press {
        return None;
    }
    match key {
        Some(key) => if key == 'q' || (key == 'c' && control) {
            Some(KeyAction::Quit)
        } else {
            None
        },
        None => None,
    }
}

/// What a counter has gained is what it lacked before, or nothing where it has
/// wrapped around; what was missed of the events is told by number.
pub proof fn samples_show_the_difference(last: u64, now: u64, missed: u64)
    ensures
        last <= now ==> last + gained(last, now) == now,
        last > now ==> gained(last, now) == 0,
        lag_text(missed) == "(log lagged, dropped "@ + decimal(missed as nat) + " events)"@,
{
}

/// The connections of `list` with this id.
pub open spec fn with_id(list: Seq<ConnInfo>, id: u64) -> Seq<ConnInfo> {
    list.filter(|info: ConnInfo| info.id == id)
}

proof fn lemma_with_id_of_push(list: Seq<ConnInfo>, info: ConnInfo, id: u64)
    ensures
        with_id(list.push(info), id) == (if info.id == id {
            with_id(list, id).push(info)
        } else {
            with_id(list, id)
        }),
{
    reveal(Seq::filter);
    assert(list.push(info).drop_last() =~= list);
}

proof fn lemma_inserted_is_stable(sorted: Seq<ConnInfo>, info: ConnInfo, id: u64)
    ensures
        with_id(inserted(sorted, info), id) == with_id(sorted.push(info), id),
    decreases sorted.len(),
{
    if sorted.len() > 0 && sorted.last().id > info.id {
        let front = sorted.drop_last();
        assert(sorted =~= front.push(sorted.last()));
        lemma_inserted_is_stable(front, info, id);
        lemma_with_id_of_push(inserted(front, info), sorted.last(), id);
        lemma_with_id_of_push(front, info, id);
        lemma_with_id_of_push(front, sorted.last(), id);
        lemma_with_id_of_push(sorted, info, id);
    }
}

/// Connections of the same id stay in the order that they came in.
pub proof fn sorting_is_stable(list: Seq<ConnInfo>, id: u64)
    ensures
        with_id(sorted_by_id(list), id) == with_id(list, id),
    decreases list.len(),
{
    if list.len() > 0 {
        let front = list.drop_last();
        assert(list =~= front.push(list.last()));
        sorting_is_stable(front, id);
        lemma_inserted_is_stable(sorted_by_id(front), list.last(), id);
        lemma_with_id_of_push(sorted_by_id(front), list.last(), id);
        lemma_with_id_of_push(front, list.last(), id);
    }
}

} // verus!
