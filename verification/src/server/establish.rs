//! Resolve both families while connecting. A failed early candidate must not
//! cancel a slower DNS answer; only an established connection ends the search.
//!
//! Instants are nanoseconds on one clock, the same for all calls.

use std::collections::VecDeque;

use vstd::prelude::*;

use crate::config::Egress;
use crate::error::{IoErrorKind, IoFailure, IoFailureView};
use crate::net::SocketAddr;
use crate::server::connect::{EstablishError, EstablishErrorView};
use crate::text::{decimal, push_decimal};

verus! {

/// The address families that are looked up side by side.
#[derive(Debug, Clone, Copy, PartialEq, Eq, Structural)]
pub enum Family {
    V4,
    V6,
}

/// The search for a connection to one name within one deadline.
pub struct Dialer {
    egress: Egress,
    deadline: u64,
    a_done: bool,
    aaaa_done: bool,
    a_error: String,
    aaaa_error: String,
    queue: VecDeque<SocketAddr>,
    seen: Vec<SocketAddr>,
    blocked: bool,
    active: bool,
    attempt_deadline: u64,
    last_error: Option<IoFailure>,
}

/// What a [`Dialer`] stands for.
#[verifier::ext_equal]
pub struct DialerView {
    /// Addresses that must not be dialed.
    pub egress: Egress,
    /// When the whole search ends.
    pub deadline: u64,
    /// Whether the IPv4 lookup has ended.
    pub a_done: bool,
    /// Whether the IPv6 lookup has ended.
    pub aaaa_done: bool,
    /// How the IPv4 lookup failed, where it did.
    pub a_error: Seq<char>,
    /// How the IPv6 lookup failed, where it did.
    pub aaaa_error: Seq<char>,
    /// Candidates that are still to be dialed, in order.
    pub queue: Seq<SocketAddr>,
    /// All candidates so far, in order.
    pub seen: Seq<SocketAddr>,
    /// Whether an answer held an address that the egress policy refuses.
    pub blocked: bool,
    /// Whether an attempt is under way.
    pub active: bool,
    /// When the attempt under way is given up.
    pub attempt_deadline: u64,
    /// How the latest failed attempt failed.
    pub last_error: Option<IoFailureView>,
}

/// What the search does next.
#[derive(Debug, PartialEq, Eq)]
pub enum Search {
    /// Dial this address and give the attempt up at this instant.
    Dial(SocketAddr, u64),
    /// Wait for what is under way.
    Wait,
    /// The search has failed.
    Fail(EstablishError),
}

/// What a [`Search`] stands for.
pub enum SearchView {
    Dial(SocketAddr, u64),
    Wait,
    Fail(EstablishErrorView),
}

impl View for Search {
    type V = SearchView;

    open spec fn view(&self) -> SearchView {
        match self {
            Search::Dial(address, until) => SearchView::Dial(*address, *until),
            Search::Wait => SearchView::Wait,
            Search::Fail(error) => SearchView::Fail(error@),
        }
    }
}

impl View for Dialer {
    type V = DialerView;

    closed spec fn view(&self) -> DialerView {
        DialerView {
            egress: self.egress,
            deadline: self.deadline,
            a_done: self.a_done,
            aaaa_done: self.aaaa_done,
            a_error: self.a_error@,
            aaaa_error: self.aaaa_error@,
            queue: self.queue@,
            seen: self.seen@,
            blocked: self.blocked,
            active: self.active,
            attempt_deadline: self.attempt_deadline,
            last_error: match self.last_error {
                Some(error) => Some(error@),
                None => None,
            },
        }
    }
}

/// The instant that leaves `rivals` other candidates their equal share of what
/// remains until `deadline`.
pub open spec fn fair_share(now: u64, deadline: u64, rivals: nat) -> u64 {
    let shares = if rivals + 1 > u32::MAX {
        u32::MAX as nat
    } else {
        rivals + 1
    };
    if now >= deadline {
        now
    } else {
        (now + (deadline - now) as nat / shares) as u64
    }
}

impl DialerView {
    /// A search that has just begun.
    pub open spec fn initial(egress: Egress, deadline: u64) -> DialerView {
        DialerView {
            egress,
            deadline,
            a_done: false,
            aaaa_done: false,
            a_error: Seq::empty(),
            aaaa_error: Seq::empty(),
            queue: Seq::empty(),
            seen: Seq::empty(),
            blocked: false,
            active: false,
            attempt_deadline: deadline,
            last_error: None,
        }
    }

    /// The candidates that were dialed, in order.
    pub open spec fn dialed(self) -> Seq<SocketAddr> {
        self.seen.take(self.seen.len() - self.queue.len())
    }

    /// Whether the queue is what is left of the candidates, none of which occurs
    /// twice or is refused by the egress policy, and an attempt is under way or
    /// has failed just where a candidate was dialed.
    pub open spec fn wf(self) -> bool {
        &&& self.queue.len() <= self.seen.len()
        &&& self.queue == self.seen.skip(self.seen.len() - self.queue.len())
        &&& self.seen.no_duplicates()
        &&& forall|i: int|
            0 <= i < self.seen.len() ==> !self.egress.blocks((#[trigger] self.seen[i]).spec_ip())
        &&& (self.active || self.last_error is Some) <==> self.dialed().len() > 0
    }

    /// After `address` has come out of a lookup.
    pub open spec fn with_candidate(self, address: SocketAddr) -> DialerView {
        if self.egress.blocks(address.spec_ip()) {
            DialerView { blocked: true, ..self }
        } else if self.seen.contains(address) {
            self
        } else {
            DialerView { seen: self.seen.push(address), queue: self.queue.push(address), ..self }
        }
    }

    /// After `addresses` have come out of a lookup, in order.
    pub open spec fn with_candidates(self, addresses: Seq<SocketAddr>) -> DialerView
        decreases addresses.len(),
    {
        if addresses.len() == 0 {
            self
        } else {
            self.with_candidates(addresses.drop_last()).with_candidate(addresses.last())
        }
    }

    /// After the attempt under way has left new candidates their share of time.
    pub open spec fn shared(self, now: u64) -> DialerView {
        let share = fair_share(now, self.deadline, self.queue.len());
        if self.active && self.queue.len() > 0 && share < self.attempt_deadline {
            DialerView { attempt_deadline: share, ..self }
        } else {
            self
        }
    }

    /// After the lookup of one family has ended.
    pub open spec fn answered(
        self,
        family: Family,
        answer: Result<Seq<SocketAddr>, Seq<char>>,
        now: u64,
    ) -> DialerView {
        let ended = match family {
            Family::V4 => DialerView { a_done: true, ..self },
            Family::V6 => DialerView { aaaa_done: true, ..self },
        };
        let noted = match answer {
            Ok(addresses) => ended.with_candidates(addresses),
            Err(error) => match family {
                Family::V4 => DialerView { a_error: error, ..ended },
                Family::V6 => DialerView { aaaa_error: error, ..ended },
            },
        };
        noted.shared(now)
    }

    /// Why a search failed in which nothing is left to try.
    pub open spec fn exhausted(self, elapsed_ms: nat) -> EstablishErrorView {
        match self.last_error {
            Some(error) => EstablishErrorView::Dial(error),
            None => if self.blocked {
                EstablishErrorView::Blocked
            } else {
                EstablishErrorView::Dns(
                    "failed after "@ + decimal(elapsed_ms) + " ms: A: "@ + self.a_error
                        + "; AAAA: "@ + self.aaaa_error,
                )
            },
        }
    }

    /// Why a search failed that ran out of time.
    pub open spec fn expired(self, elapsed_ms: nat) -> EstablishErrorView {
        if self.active || self.last_error is Some {
            EstablishErrorView::Dial(
                IoFailureView {
                    kind: IoErrorKind::TimedOut,
                    message: "DNS and connection budget exhausted"@,
                },
            )
        } else if self.blocked {
            EstablishErrorView::Blocked
        } else {
            EstablishErrorView::Dns(
                "timed out after "@ + decimal(elapsed_ms) + " ms; A: "@ + self.a_error + "; AAAA: "@
                    + self.aaaa_error,
            )
        }
    }

    /// What to do next: dial the next candidate when no attempt is under way,
    /// and give up when none is left and none can come.
    pub open spec fn next(self, now: u64, elapsed_ms: nat) -> (DialerView, SearchView) {
        if self.active {
            (self, SearchView::Wait)
        } else if self.queue.len() > 0 {
            let until = fair_share(now, self.deadline, (self.queue.len() - 1) as nat);
            (
                DialerView {
                    queue: self.queue.drop_first(),
                    active: true,
                    attempt_deadline: until,
                    ..self
                },
                SearchView::Dial(self.queue[0], until),
            )
        } else if self.a_done && self.aaaa_done {
            (self, SearchView::Fail(self.exhausted(elapsed_ms)))
        } else {
            (self, SearchView::Wait)
        }
    }

    /// After the attempt under way has failed.
    pub open spec fn attempt_failed(self, error: IoFailureView) -> DialerView {
        DialerView { active: false, last_error: Some(error), ..self }
    }
}

/// The instant that leaves `rivals` other candidates their equal share of what
/// remains until `deadline`.
fn share_until(now: u64, deadline: u64, rivals: usize) -> (until: u64)
    ensures
        until == fair_share(now, deadline, rivals as nat),
{
    let divisor: u32 = if rivals >= u32::MAX as usize {
        u32::MAX
    } else {
        rivals as u32 + 1
    };
    if now >= deadline {
        now
    } else {
        let share: u64 = (deadline - now) / divisor as u64;
        assert(share <= deadline - now) by (nonlinear_arith)
            requires
                share == (deadline - now) as u64 / divisor as u64,
                divisor >= 1,
                deadline > now,
        ;
        now + share
    }
}

/// Whether `list` holds `address`.
fn holds(list: &Vec<SocketAddr>, address: SocketAddr) -> (found: bool)
    ensures
        found == list@.contains(address),
{
    let mut i: usize = 0;
    while i < list.len()
        invariant
            i <= list.len(),
            forall|j: int| 0 <= j < i ==> list@[j] != address,
        decreases list.len() - i,
    {
        if list[i] == address {
            assert(list@[i as int] == address);
            return true;
        }
        i += 1;
    }
    false
}

impl Dialer {
    /// Begin a search that `egress` restricts and that ends at `deadline`.
    pub fn new(egress: Egress, deadline: u64) -> (dialer: Dialer)
        ensures
            dialer@ == DialerView::initial(egress, deadline),
            dialer@.wf(),
    {
        let dialer = Dialer {
            egress,
            deadline,
            a_done: false,
            aaaa_done: false,
            a_error: String::new(),
            aaaa_error: String::new(),
            queue: VecDeque::new(),
            seen: Vec::new(),
            blocked: false,
            active: false,
            attempt_deadline: deadline,
            last_error: None,
        };
        assert(dialer@ =~= DialerView::initial(egress, deadline));
        assert(dialer@.queue =~= dialer@.seen.skip(0));
        dialer
    }

    /// Decide what to do next, `elapsed_ms` after the search began.
    pub fn next(&mut self, now: u64, elapsed_ms: u128) -> (search: Search)
        ensures
            (final(self)@, search@) == old(self)@.next(now, elapsed_ms as nat),
            old(self)@.wf() ==> final(self)@.wf(),
    {
        if self.active {
            return Search::Wait;
        }
        match self.queue.pop_front() {
            Some(address) => {
                // Reserve time for actual alternatives. A still-pending DNS
                // query is not a candidate and must not shorten a lone dial.
                let until: u64 = share_until(now, self.deadline, self.queue.len());
                self.attempt_deadline = until;
                self.active = true;
                proof {
                    assert(old(self)@.queue.drop_first() =~= self@.queue);
                    assert(self@ =~= old(self)@.next(now, elapsed_ms as nat).0);
                    if old(self)@.wf() {
                        lemma_next_keeps_wf(old(self)@, now, elapsed_ms as nat);
                    }
                }
                Search::Dial(address, until)
            },
            None => if self.a_done && self.aaaa_done {
                let error: EstablishError = self.exhausted(elapsed_ms);
                Search::Fail(error)
            } else {
                Search::Wait
            },
        }
    }

    /// When the attempt under way is given up.
    pub fn attempt_deadline(&self) -> (until: u64)
        ensures
            until == self@.attempt_deadline,
    {
        self.attempt_deadline
    }

    /// Why the search failed, when nothing is left to try.
    fn exhausted(&self, elapsed_ms: u128) -> (error: EstablishError)
        ensures
            error@ == self@.exhausted(elapsed_ms as nat),
    {
        match &self.last_error {
            Some(error) => EstablishError::Dial(error.clone()),
            None => if self.blocked {
                EstablishError::Blocked
            } else {
                let mut text: String = "failed after ".to_owned();
                push_decimal(&mut text, elapsed_ms);
                text.append(" ms: A: ");
                text.append(self.a_error.as_str());
                text.append("; AAAA: ");
                text.append(self.aaaa_error.as_str());
                EstablishError::Dns(text)
            },
        }
    }

    /// The lookup of `family` has ended at `now`: with addresses, or with the
    /// reason in words.
    pub fn answered(
        &mut self,
        family: Family,
        answer: Result<Vec<SocketAddr>, String>,
        now: u64,
    )
        ensures
            final(self)@ == old(self)@.answered(
                family,
                match answer {
                    Ok(addresses) => Ok(addresses@),
                    Err(error) => Err(error@),
                },
                now,
            ),
            old(self)@.wf() ==> final(self)@.wf(),
    {
        match family {
            Family::V4 => {
                self.a_done = true;
            },
            Family::V6 => {
                self.aaaa_done = true;
            },
        }
        let ghost ended = self@;
        match answer {
            Ok(addresses) => self.add_candidates(&addresses),
            Err(error) => match family {
                Family::V4 => {
                    self.a_error = error;
                },
                Family::V6 => {
                    self.aaaa_error = error;
                },
            },
        }
        let ghost noted = self@;
        if self.active && self.queue.len() > 0 {
            let share: u64 = share_until(now, self.deadline, self.queue.len());
            if share < self.attempt_deadline {
                self.attempt_deadline = share;
            }
        }
        assert(self@ =~= noted.shared(now));
    }

    /// Queue the addresses of an answer that are new and that the egress policy
    /// allows.
    fn add_candidates(&mut self, addresses: &Vec<SocketAddr>)
        ensures
            final(self)@ == old(self)@.with_candidates(addresses@),
            old(self)@.wf() ==> final(self)@.wf(),
    {
        let mut i: usize = 0;
        assert(addresses@.take(0) =~= Seq::<SocketAddr>::empty());
        while i < addresses.len()
            invariant
                i <= addresses.len(),
                self@ == old(self)@.with_candidates(addresses@.take(i as int)),
                old(self)@.wf() ==> self@.wf(),
            decreases addresses.len() - i,
        {
            let address: SocketAddr = addresses[i];
            let ghost before = self@;
            proof {
                assert(addresses@.take(i + 1).drop_last() =~= addresses@.take(i as int));
            }
            if self.egress.is_blocked(address.ip()) {
                self.blocked = true;
            } else if !holds(&self.seen, address) {
                self.seen.push(address);
                self.queue.push_back(address);
            }
            proof {
                assert(self@ =~= before.with_candidate(address));
                if before.wf() {
                    lemma_candidate_keeps_wf(before, address);
                }
            }
            i += 1;
        }
        assert(addresses@.take(addresses@.len() as int) =~= addresses@);
    }

    /// The attempt under way has failed.
    pub fn attempt_failed(&mut self, error: IoFailure)
        ensures
            final(self)@ == old(self)@.attempt_failed(error@),
            old(self)@.wf() && old(self)@.active ==> final(self)@.wf(),
    {
        self.active = false;
        self.last_error = Some(error);
        assert(self@ =~= old(self)@.attempt_failed(error@));
    }

    /// The attempt under way was given up at its instant.
    pub fn attempt_timed_out(&mut self)
        ensures
            final(self)@ == old(self)@.attempt_failed(
                IoFailureView {
                    kind: IoErrorKind::TimedOut,
                    message: "connection attempt timed out"@,
                },
            ),
            old(self)@.wf() && old(self)@.active ==> final(self)@.wf(),
    {
        self.attempt_failed(
            IoFailure {
                kind: IoErrorKind::TimedOut,
                message: "connection attempt timed out".to_owned(),
            },
        );
    }

    /// Why the search failed, when its deadline has passed.
    pub fn expired(&self, elapsed_ms: u128) -> (error: EstablishError)
        ensures
            error@ == self@.expired(elapsed_ms as nat),
    {
        if self.active || self.last_error.is_some() {
            EstablishError::Dial(
                IoFailure {
                    kind: IoErrorKind::TimedOut,
                    message: "DNS and connection budget exhausted".to_owned(),
                },
            )
        } else if self.blocked {
            EstablishError::Blocked
        } else {
            let mut text: String = "timed out after ".to_owned();
            push_decimal(&mut text, elapsed_ms);
            text.append(" ms; A: ");
            text.append(self.a_error.as_str());
            text.append("; AAAA: ");
            text.append(self.aaaa_error.as_str());
            EstablishError::Dns(text)
        }
    }
}

proof fn lemma_candidate_keeps_wf(search: DialerView, address: SocketAddr)
    requires
        search.wf(),
    ensures
        search.with_candidate(address).wf(),
        search.with_candidate(address).dialed() == search.dialed(),
{
    let after = search.with_candidate(address);
    let tried = search.seen.len() - search.queue.len();
    assert(after.queue =~= after.seen.skip(tried));
    assert(after.dialed() =~= search.dialed());
}

proof fn lemma_next_keeps_wf(search: DialerView, now: u64, elapsed_ms: nat)
    requires
        search.wf(),
    ensures
        search.next(now, elapsed_ms).0.wf(),
{
    let after = search.next(now, elapsed_ms).0;
    if !search.active && search.queue.len() > 0 {
        let tried = search.seen.len() - search.queue.len();
        assert(after.queue =~= after.seen.skip(tried + 1));
    }
}

/// An address is dialed at most once, and never one that the egress policy
/// refuses.
pub proof fn dials_are_distinct_and_allowed(search: DialerView, now: u64, elapsed_ms: nat)
    requires
        search.wf(),
    ensures
        search.dialed().no_duplicates(),
        forall|i: int|
            0 <= i < search.dialed().len() ==> !search.egress.blocks(
                (#[trigger] search.dialed()[i]).spec_ip(),
            ),
        search.next(now, elapsed_ms).1 matches SearchView::Dial(address, _) ==> {
            &&& search.next(now, elapsed_ms).0.dialed() == search.dialed().push(address)
            &&& !search.dialed().contains(address)
            &&& !search.egress.blocks(address.spec_ip())
        },
{
    if let SearchView::Dial(address, _) = search.next(now, elapsed_ms).1 {
        let tried = search.seen.len() - search.queue.len();
        assert(search.seen[tried] == address);
        assert(search.next(now, elapsed_ms).0.dialed() =~= search.dialed().push(address));
    }
}

/// The search is given up only when no attempt is under way, both lookups have
/// ended, and every address that they brought has been dialed.
pub proof fn only_an_exhausted_search_fails(search: DialerView, now: u64, elapsed_ms: nat)
    requires
        search.wf(),
    ensures
        search.next(now, elapsed_ms).1 is Fail <==> !search.active && search.a_done
            && search.aaaa_done && search.dialed() == search.seen,
{
    if search.queue.len() == 0 {
        assert(search.dialed() =~= search.seen);
    }
}

/// An answer neither ends the search nor drops a candidate, and it never gives
/// the attempt under way more time.
pub proof fn answers_only_add(
    search: DialerView,
    family: Family,
    answer: Result<Seq<SocketAddr>, Seq<char>>,
    now: u64,
)
    requires
        search.wf(),
    ensures
        ({
            let after = search.answered(family, answer, now);
            &&& after.wf()
            &&& after.dialed() == search.dialed()
            &&& search.seen.len() <= after.seen.len()
            &&& after.seen.take(search.seen.len() as int) == search.seen
            &&& after.active == search.active
            &&& after.last_error == search.last_error
            &&& after.attempt_deadline <= search.attempt_deadline
        }),
{
    let ended = match family {
        Family::V4 => DialerView { a_done: true, ..search },
        Family::V6 => DialerView { aaaa_done: true, ..search },
    };
    assert(ended.dialed() =~= search.dialed());
    assert(search.seen.take(search.seen.len() as int) =~= search.seen);
    if let Ok(addresses) = answer {
        lemma_candidates_only_add(ended, addresses);
    }
}

proof fn lemma_candidates_only_add(search: DialerView, addresses: Seq<SocketAddr>)
    requires
        search.wf(),
    ensures
        ({
            let after = search.with_candidates(addresses);
            &&& after.wf()
            &&& after.dialed() == search.dialed()
            &&& search.seen.len() <= after.seen.len()
            &&& after.seen.take(search.seen.len() as int) == search.seen
            &&& after.active == search.active
            &&& after.last_error == search.last_error
            &&& after.attempt_deadline == search.attempt_deadline
            &&& after.egress == search.egress
        }),
    decreases addresses.len(),
{
    if addresses.len() == 0 {
        assert(search.seen.take(search.seen.len() as int) =~= search.seen);
    } else {
        let before = search.with_candidates(addresses.drop_last());
        lemma_candidates_only_add(search, addresses.drop_last());
        lemma_candidate_keeps_wf(before, addresses.last());
        let after = before.with_candidate(addresses.last());
        assert(after.seen.take(search.seen.len() as int) =~= search.seen);
    }
}

/// Every address that an answer holds becomes a candidate, unless the egress
/// policy refuses it.
pub proof fn allowed_answers_become_candidates(search: DialerView, addresses: Seq<SocketAddr>, i: int)
    requires
        0 <= i < addresses.len(),
    ensures
        search.egress.blocks(addresses[i].spec_ip()) ==> search.with_candidates(addresses).blocked,
        !search.egress.blocks(addresses[i].spec_ip()) ==> search.with_candidates(
            addresses,
        ).seen.contains(addresses[i]),
        search.with_candidates(addresses).egress == search.egress,
    decreases addresses.len(),
{
    let before = search.with_candidates(addresses.drop_last());
    let after = before.with_candidate(addresses.last());
    if i < addresses.len() - 1 {
        allowed_answers_become_candidates(search, addresses.drop_last(), i);
        assert(addresses.drop_last()[i] == addresses[i]);
        if before.seen.contains(addresses[i]) {
            let j = before.seen.index_of(addresses[i]);
            assert(after.seen[j] == addresses[i]);
        }
    } else {
        if addresses.len() > 1 {
            allowed_answers_become_candidates(search, addresses.drop_last(), 0);
        }
        if !before.seen.contains(addresses[i]) && !before.egress.blocks(addresses[i].spec_ip()) {
            assert(after.seen[before.seen.len() as int] == addresses[i]);
        }
    }
}

/// What can happen to a search.
pub enum SearchEvent {
    /// It is asked what to do at this instant, this many milliseconds in.
    Asked(u64, nat),
    /// The lookup of a family has ended at this instant.
    Answered(Family, Result<Seq<SocketAddr>, Seq<char>>, u64),
    /// The attempt under way has failed.
    Failed(IoFailureView),
}

/// Where a search stands after `events`.
pub open spec fn search_run(egress: Egress, deadline: u64, events: Seq<SearchEvent>) -> DialerView
    decreases events.len(),
{
    if events.len() == 0 {
        DialerView::initial(egress, deadline)
    } else {
        let before = search_run(egress, deadline, events.drop_last());
        match events.last() {
            SearchEvent::Asked(now, elapsed_ms) => before.next(now, elapsed_ms).0,
            SearchEvent::Answered(family, answer, now) => before.answered(family, answer, now),
            SearchEvent::Failed(error) => before.attempt_failed(error),
        }
    }
}

/// Whether no attempt fails in `events` but one that is under way.
pub open spec fn attempts_fail_once(egress: Egress, deadline: u64, events: Seq<SearchEvent>) -> bool
    decreases events.len(),
{
    events.len() > 0 ==> {
        &&& attempts_fail_once(egress, deadline, events.drop_last())
        &&& events.last() is Failed ==> search_run(egress, deadline, events.drop_last()).active
    }
}

/// Whether `event` is an answer that holds an address which `egress` refuses.
pub open spec fn brings_refused(egress: Egress, event: SearchEvent) -> bool {
    event matches SearchEvent::Answered(_, Ok(addresses), _) && exists|i: int|
        0 <= i < addresses.len() && egress.blocks((#[trigger] addresses[i]).spec_ip())
}

/// Whether one of `events` is an answer that holds an address which `egress`
/// refuses.
pub open spec fn refused_was_answered(egress: Egress, events: Seq<SearchEvent>) -> bool {
    exists|i: int| 0 <= i < events.len() && brings_refused(egress, #[trigger] events[i])
}

proof fn lemma_candidates_block(search: DialerView, addresses: Seq<SocketAddr>)
    ensures
        search.with_candidates(addresses).blocked <==> search.blocked || exists|i: int|
            0 <= i < addresses.len() && search.egress.blocks((#[trigger] addresses[i]).spec_ip()),
        search.with_candidates(addresses).egress == search.egress,
    decreases addresses.len(),
{
    if addresses.len() > 0 {
        let front = addresses.drop_last();
        lemma_candidates_block(search, front);
        let refused = |list: Seq<SocketAddr>|
            exists|i: int|
                0 <= i < list.len() && search.egress.blocks((#[trigger] list[i]).spec_ip());
        if refused(front) {
            let i = choose|i: int|
                0 <= i < front.len() && search.egress.blocks((#[trigger] front[i]).spec_ip());
            assert(addresses[i] == front[i]);
        }
        if refused(addresses) {
            let i = choose|i: int|
                0 <= i < addresses.len() && search.egress.blocks(
                    (#[trigger] addresses[i]).spec_ip(),
                );
            if i < front.len() {
                assert(front[i] == addresses[i]);
            }
        }
    }
}

proof fn lemma_search_run(egress: Egress, deadline: u64, events: Seq<SearchEvent>)
    requires
        attempts_fail_once(egress, deadline, events),
    ensures
        search_run(egress, deadline, events).wf(),
        search_run(egress, deadline, events).egress == egress,
        search_run(egress, deadline, events).blocked <==> refused_was_answered(egress, events),
    decreases events.len(),
{
    let after = search_run(egress, deadline, events);
    if events.len() == 0 {
        assert(after.queue =~= after.seen.skip(0));
    } else {
        let front = events.drop_last();
        let before = search_run(egress, deadline, front);
        lemma_search_run(egress, deadline, front);
        match events.last() {
            SearchEvent::Asked(now, elapsed_ms) => lemma_next_keeps_wf(before, now, elapsed_ms),
            SearchEvent::Answered(family, answer, now) => {
                answers_only_add(before, family, answer, now);
                if let Ok(addresses) = answer {
                    let ended = match family {
                        Family::V4 => DialerView { a_done: true, ..before },
                        Family::V6 => DialerView { aaaa_done: true, ..before },
                    };
                    lemma_candidates_block(ended, addresses);
                }
            },
            SearchEvent::Failed(error) => {
                assert(after.dialed() == before.dialed());
            },
        }
        if refused_was_answered(egress, front) {
            let i = choose|i: int|
                0 <= i < front.len() && brings_refused(egress, #[trigger] front[i]);
            assert(events[i] == front[i]);
        }
        if refused_was_answered(egress, events) {
            let i = choose|i: int|
                0 <= i < events.len() && brings_refused(egress, #[trigger] events[i]);
            if i < front.len() {
                assert(front[i] == events[i]);
            }
        }
        if brings_refused(egress, events.last()) {
            assert(brings_refused(egress, events[events.len() - 1]));
        }
    }
}

/// Whether `error` is a dial error where an address was dialed; where none was,
/// says that an answer was refused if one was, and is a DNS error otherwise.
pub open spec fn tells_how_far(error: EstablishErrorView, dialed: bool, refused: bool) -> bool {
    &&& error is Dial <==> dialed
    &&& error is Blocked <==> !dialed && refused
    &&& error is Dns <==> !dialed && !refused
}

/// However a search fails, because nothing is left to try or because its time is
/// up, the error is a dial error if and only if an address was dialed, says that
/// the target is not allowed if and only if none was and an answer held an address
/// that the egress policy refuses, and is a DNS error if and only if neither holds.
pub proof fn failures_tell_how_far_a_search_got(
    egress: Egress,
    deadline: u64,
    events: Seq<SearchEvent>,
    now: u64,
    elapsed_ms: nat,
)
    requires
        attempts_fail_once(egress, deadline, events),
    ensures
        ({
            let search = search_run(egress, deadline, events);
            let dialed = search.dialed().len() > 0;
            let refused = refused_was_answered(egress, events);
            &&& search.next(now, elapsed_ms).1 matches SearchView::Fail(error) ==> tells_how_far(
                error,
                dialed,
                refused,
            )
            &&& tells_how_far(search.expired(elapsed_ms), dialed, refused)
        }),
{
    lemma_search_run(egress, deadline, events);
}

/// An attempt is never granted time beyond the deadline, a lone candidate is
/// granted all of what remains, and more rivals never leave it more.
pub proof fn shares_stay_within_the_deadline(now: u64, deadline: u64, rivals: nat, more: nat)
    requires
        now <= deadline,
        rivals <= more,
    ensures
        now <= fair_share(now, deadline, rivals) <= deadline,
        fair_share(now, deadline, 0) == deadline,
        fair_share(now, deadline, more) <= fair_share(now, deadline, rivals),
{
    let left = (deadline - now) as nat;
    let few = if rivals + 1 > u32::MAX {
        u32::MAX as nat
    } else {
        rivals + 1
    };
    let many = if more + 1 > u32::MAX {
        u32::MAX as nat
    } else {
        more + 1
    };
    assert(left / many <= left / few && left / few <= left && left / many <= left)
        by (nonlinear_arith)
        requires
            1 <= few <= many,
    ;
    let alone: nat = 0 + 1;
    assert(left / alone == left) by (nonlinear_arith)
        requires
            alone == 1,
    ;
}

/// Whether the lookup of `family` has ended in `events`.
pub open spec fn lookup_ended(events: Seq<SearchEvent>, family: Family) -> bool {
    exists|i: int|
        0 <= i < events.len() && (#[trigger] events[i] matches SearchEvent::Answered(ended, _, _)
            && ended == family)
}

/// Whether an answer in `events` holds `address`.
pub open spec fn was_answered(events: Seq<SearchEvent>, address: SocketAddr) -> bool {
    exists|i: int|
        0 <= i < events.len() && (#[trigger] events[i] matches SearchEvent::Answered(
            _,
            Ok(addresses),
            _,
        ) && addresses.contains(address))
}

/// The words of the last failed lookup of `family` in `events`; none where none
/// failed.
pub open spec fn last_words(events: Seq<SearchEvent>, family: Family) -> Seq<char>
    decreases events.len(),
{
    if events.len() == 0 {
        Seq::empty()
    } else {
        match events.last() {
            SearchEvent::Answered(ended, Err(words), _) => if ended == family {
                words
            } else {
                last_words(events.drop_last(), family)
            },
            _ => last_words(events.drop_last(), family),
        }
    }
}

/// The error of the last attempt that failed in `events`.
pub open spec fn last_failure(events: Seq<SearchEvent>) -> Option<IoFailureView>
    decreases events.len(),
{
    if events.len() == 0 {
        None
    } else {
        match events.last() {
            SearchEvent::Failed(error) => Some(error),
            _ => last_failure(events.drop_last()),
        }
    }
}

proof fn lemma_lookup_ended_front(events: Seq<SearchEvent>, family: Family)
    requires
        events.len() > 0,
    ensures
        lookup_ended(events, family) <==> lookup_ended(events.drop_last(), family) || (
        events.last() matches SearchEvent::Answered(ended, _, _) && ended == family),
{
    let front = events.drop_last();
    if lookup_ended(front, family) {
        let i = choose|i: int|
            0 <= i < front.len() && (#[trigger] front[i] matches SearchEvent::Answered(ended, _, _)
                && ended == family);
        assert(events[i] == front[i]);
    }
    if lookup_ended(events, family) {
        let i = choose|i: int|
            0 <= i < events.len() && (#[trigger] events[i] matches SearchEvent::Answered(ended, _, _)
                && ended == family);
        if i < front.len() {
            assert(front[i] == events[i]);
        }
    }
    assert(events[events.len() - 1] == events.last());
}

proof fn lemma_candidates_keep_the_rest(search: DialerView, addresses: Seq<SocketAddr>)
    ensures
        ({
            let after = search.with_candidates(addresses);
            &&& after.a_done == search.a_done
            &&& after.aaaa_done == search.aaaa_done
            &&& after.a_error == search.a_error
            &&& after.aaaa_error == search.aaaa_error
            &&& after.last_error == search.last_error
            &&& after.active == search.active
            &&& after.deadline == search.deadline
            &&& after.egress == search.egress
            &&& after.attempt_deadline == search.attempt_deadline
        }),
    decreases addresses.len(),
{
    if addresses.len() > 0 {
        lemma_candidates_keep_the_rest(search, addresses.drop_last());
    }
}

/// The state of a search tells what has happened: each lookup has ended if and
/// only if it was answered, its words are those of the last failure of its family,
/// and the noted error is that of the last attempt that failed.
pub proof fn searches_remember_what_happened(
    egress: Egress,
    deadline: u64,
    events: Seq<SearchEvent>,
)
    ensures
        ({
            let search = search_run(egress, deadline, events);
            &&& search.a_done <==> lookup_ended(events, Family::V4)
            &&& search.aaaa_done <==> lookup_ended(events, Family::V6)
            &&& search.a_error == last_words(events, Family::V4)
            &&& search.aaaa_error == last_words(events, Family::V6)
            &&& search.last_error == last_failure(events)
            &&& search.egress == egress
            &&& search.deadline == deadline
        }),
    decreases events.len(),
{
    if events.len() > 0 {
        let front = events.drop_last();
        searches_remember_what_happened(egress, deadline, front);
        lemma_lookup_ended_front(events, Family::V4);
        lemma_lookup_ended_front(events, Family::V6);
        if let SearchEvent::Answered(family, Ok(addresses), _) = events.last() {
            let before = search_run(egress, deadline, front);
            let ended = match family {
                Family::V4 => DialerView { a_done: true, ..before },
                Family::V6 => DialerView { aaaa_done: true, ..before },
            };
            lemma_candidates_keep_the_rest(ended, addresses);
        }
    }
}

proof fn lemma_candidates_are_the_allowed(
    search: DialerView,
    addresses: Seq<SocketAddr>,
    address: SocketAddr,
)
    ensures
        search.with_candidates(addresses).seen.contains(address) <==> search.seen.contains(address)
            || (addresses.contains(address) && !search.egress.blocks(address.spec_ip())),
    decreases addresses.len(),
{
    if addresses.len() > 0 {
        let front = addresses.drop_last();
        let last = addresses.last();
        lemma_candidates_are_the_allowed(search, front, address);
        lemma_candidates_keep_the_rest(search, front);
        let before = search.with_candidates(front);
        let after = before.with_candidate(last);
        if front.contains(address) {
            let i = front.index_of(address);
            assert(addresses[i] == address);
        }
        if addresses.contains(address) {
            let i = addresses.index_of(address);
            if i < front.len() {
                assert(front[i] == address);
            }
        }
        assert(addresses[addresses.len() - 1] == last);
        if before.seen.contains(address) {
            let k = before.seen.index_of(address);
            assert(after.seen[k] == address);
        }
        if after.seen.contains(address) && !before.seen.contains(address) {
            let k = after.seen.index_of(address);
            assert(k == before.seen.len());
        }
        if !before.seen.contains(last) && !before.egress.blocks(last.spec_ip()) {
            assert(after.seen[before.seen.len() as int] == last);
        }
    }
}

/// The candidates of a search are the addresses that were answered and that the
/// egress policy allows: all of them, and no others.
pub proof fn candidates_are_the_allowed_answers(
    egress: Egress,
    deadline: u64,
    events: Seq<SearchEvent>,
    address: SocketAddr,
)
    ensures
        search_run(egress, deadline, events).seen.contains(address) <==> was_answered(
            events,
            address,
        ) && !egress.blocks(address.spec_ip()),
    decreases events.len(),
{
    if events.len() > 0 {
        let front = events.drop_last();
        let before = search_run(egress, deadline, front);
        candidates_are_the_allowed_answers(egress, deadline, front, address);
        searches_remember_what_happened(egress, deadline, front);
        if was_answered(front, address) {
            let i = choose|i: int|
                0 <= i < front.len() && (#[trigger] front[i] matches SearchEvent::Answered(
                    _,
                    Ok(addresses),
                    _,
                ) && addresses.contains(address));
            assert(events[i] == front[i]);
        }
        if was_answered(events, address) {
            let i = choose|i: int|
                0 <= i < events.len() && (#[trigger] events[i] matches SearchEvent::Answered(
                    _,
                    Ok(addresses),
                    _,
                ) && addresses.contains(address));
            if i < front.len() {
                assert(front[i] == events[i]);
            }
        }
        assert(events[events.len() - 1] == events.last());
        if let SearchEvent::Answered(family, Ok(addresses), now) = events.last() {
            let ended = match family {
                Family::V4 => DialerView { a_done: true, ..before },
                Family::V6 => DialerView { aaaa_done: true, ..before },
            };
            lemma_candidates_are_the_allowed(ended, addresses, address);
        }
    }
}

/// A search fails if and only if both lookups have ended, no attempt is under way
/// and every candidate was dialed; while one is under way, or a lookup has not
/// ended and no candidate is left, it waits; else it dials. The end of one lookup
/// never ends it.
pub proof fn searches_wait_for_both_lookups(
    egress: Egress,
    deadline: u64,
    events: Seq<SearchEvent>,
    now: u64,
    elapsed_ms: nat,
)
    requires
        attempts_fail_once(egress, deadline, events),
    ensures
        ({
            let search = search_run(egress, deadline, events);
            let (after, what) = search.next(now, elapsed_ms);
            let both = lookup_ended(events, Family::V4) && lookup_ended(events, Family::V6);
            let left = search.seen.len() - search.dialed().len();
            &&& what is Fail <==> !search.active && left == 0 && both
            &&& what is Wait <==> search.active || (left == 0 && !both)
            &&& what is Dial <==> !search.active && left > 0
            &&& what matches SearchView::Dial(address, _) ==> address
                == search.seen[search.dialed().len() as int] && after.active
            &&& !(what is Dial) ==> after == search
        }),
{
    lemma_search_run(egress, deadline, events);
    searches_remember_what_happened(egress, deadline, events);
    let search = search_run(egress, deadline, events);
    if search.queue.len() > 0 {
        assert(search.queue[0] == search.seen[search.seen.len() - search.queue.len()]);
    }
}

/// A failed search is told with what the lookups said, or with the error of the
/// last attempt; one whose time is up after an attempt says so.
pub proof fn failures_are_told_in_full(
    egress: Egress,
    deadline: u64,
    events: Seq<SearchEvent>,
    now: u64,
    elapsed_ms: nat,
)
    requires
        attempts_fail_once(egress, deadline, events),
    ensures
        ({
            let search = search_run(egress, deadline, events);
            let a = last_words(events, Family::V4);
            let aaaa = last_words(events, Family::V6);
            &&& search.next(now, elapsed_ms).1 matches SearchView::Fail(EstablishErrorView::Dns(text))
                ==> text == "failed after "@ + decimal(elapsed_ms) + " ms: A: "@ + a + "; AAAA: "@
                + aaaa
            &&& search.next(now, elapsed_ms).1 matches SearchView::Fail(EstablishErrorView::Dial(error))
                ==> last_failure(events) == Some(error)
            &&& search.expired(elapsed_ms) matches EstablishErrorView::Dns(text) ==> text
                == "timed out after "@ + decimal(elapsed_ms) + " ms; A: "@ + a + "; AAAA: "@ + aaaa
            &&& search.expired(elapsed_ms) matches EstablishErrorView::Dial(error) ==> error.kind
                == IoErrorKind::TimedOut && error.message == "DNS and connection budget exhausted"@
        }),
{
    searches_remember_what_happened(egress, deadline, events);
}

/// A failed attempt leaves room for the next one and is noted; nothing else of
/// the search changes.
pub proof fn failed_attempts_make_room(search: DialerView, error: IoFailureView)
    ensures
        search.attempt_failed(error) == (DialerView {
            active: false,
            last_error: Some(error),
            ..search
        }),
{
}

/// The time until the deadline is split evenly: an attempt among `shares` that are
/// still to be made gets the largest whole part that leaves as much to each other.
pub proof fn shares_are_even(now: u64, deadline: u64, shares: nat)
    requires
        1 <= shares <= u32::MAX,
    ensures
        ({
            let until = fair_share(now, deadline, (shares - 1) as nat);
            &&& now >= deadline ==> until == now
            &&& now < deadline ==> {
                &&& now <= until <= deadline
                &&& (until - now) * shares <= deadline - now
                &&& (until - now + 1) * shares > deadline - now
            }
        }),
{
    if now < deadline {
        shares_stay_within_the_deadline(now, deadline, (shares - 1) as nat, (shares - 1) as nat);
        let left = (deadline - now) as nat;
        let part = left / shares;
        assert(part * shares <= left && (part + 1) * shares > left && part <= left)
            by (nonlinear_arith)
            requires
                part == left / shares,
                shares >= 1,
        ;
    }
}

/// A candidate that is dialed gets an even share of the time with those still
/// queued behind it.
pub proof fn dials_share_the_time(search: DialerView, now: u64, elapsed_ms: nat)
    requires
        search.wf(),
        search.seen.len() - search.dialed().len() <= u32::MAX,
        now < search.deadline,
    ensures
        search.next(now, elapsed_ms).1 matches SearchView::Dial(_, until) ==> {
            let shares = search.seen.len() - search.dialed().len();
            &&& search.next(now, elapsed_ms).0.attempt_deadline == until
            &&& now <= until <= search.deadline
            &&& (until - now) * shares <= search.deadline - now
            &&& (until - now + 1) * shares > search.deadline - now
        },
{
    if search.next(now, elapsed_ms).1 is Dial {
        shares_are_even(now, search.deadline, search.queue.len());
    }
}

/// An answer that brings candidates cuts the attempt under way down to its even
/// share with those queued, where it had more; in any other case the attempt keeps
/// its time.
pub proof fn answers_share_the_time(
    search: DialerView,
    family: Family,
    answer: Result<Seq<SocketAddr>, Seq<char>>,
    now: u64,
)
    requires
        search.wf(),
        now < search.deadline,
    ensures
        ({
            let after = search.answered(family, answer, now);
            let queued = after.seen.len() - after.dialed().len();
            let had = search.attempt_deadline;
            let has = after.attempt_deadline;
            &&& !search.active || queued == 0 ==> has == had
            &&& search.active && 0 < queued < u32::MAX ==> {
                &&& has <= had
                &&& has > now ==> (has - now) * (queued + 1) <= search.deadline - now
                &&& has < had ==> now <= has && (has - now + 1) * (queued + 1) > search.deadline - now
            }
        }),
{
    answers_only_add(search, family, answer, now);
    let after = search.answered(family, answer, now);
    let queued = (after.seen.len() - after.dialed().len()) as nat;
    if let Ok(addresses) = answer {
        let ended = match family {
            Family::V4 => DialerView { a_done: true, ..search },
            Family::V6 => DialerView { aaaa_done: true, ..search },
        };
        lemma_candidates_keep_the_rest(ended, addresses);
    }
    assert(after.queue.len() == queued);
    if 0 < queued < u32::MAX {
        shares_are_even(now, search.deadline, queued + 1);
        let until = fair_share(now, search.deadline, queued);
        let has = after.attempt_deadline;
        if search.active && has > now {
            assert((has - now) * (queued + 1) <= (until - now) * (queued + 1)) by (nonlinear_arith)
                requires
                    now < has <= until,
            ;
        }
    }
}

/// Candidates come in the order of the answers: what a later answer brings stands
/// behind what an earlier one brought, and each address that is allowed and new
/// behind all that is there.
pub proof fn candidates_come_in_order(
    search: DialerView,
    first: Seq<SocketAddr>,
    second: Seq<SocketAddr>,
    address: SocketAddr,
)
    ensures
        search.with_candidates(first + second) == search.with_candidates(first).with_candidates(
            second,
        ),
        ({
            let after = search.with_candidates(seq![address]);
            if search.egress.blocks(address.spec_ip()) {
                after == (DialerView { blocked: true, ..search })
            } else if search.seen.contains(address) {
                after == search
            } else {
                after == (DialerView {
                    seen: search.seen.push(address),
                    queue: search.queue.push(address),
                    ..search
                })
            }
        }),
    decreases second.len(),
{
    reveal_with_fuel(DialerView::with_candidates, 2);
    assert(seq![address].drop_last() =~= Seq::<SocketAddr>::empty());
    if second.len() == 0 {
        assert(first + second =~= first);
    } else {
        assert((first + second).drop_last() =~= first + second.drop_last());
        candidates_come_in_order(search, first, second.drop_last(), address);
    }
}

/// The address that is dialed is the first in the queue, which it leaves; its
/// attempt is then the one under way, until the instant that was given out.
pub proof fn dials_take_the_first_of_the_queue(search: DialerView, now: u64, elapsed_ms: nat)
    requires
        !search.active,
        search.queue.len() > 0,
    ensures
        ({
            let (after, what) = search.next(now, elapsed_ms);
            &&& what matches SearchView::Dial(address, until) && address == search.queue[0] && after
                == (DialerView {
                queue: search.queue.skip(1),
                active: true,
                attempt_deadline: until,
                ..search
            })
        }),
{
    assert(search.queue.drop_first() =~= search.queue.skip(1));
}

/// A search begins with nothing known and nothing under way; the end of a lookup
/// marks its family, and notes its words where it failed.
pub proof fn lookups_end_by_family(
    egress: Egress,
    deadline: u64,
    search: DialerView,
    error: Seq<char>,
    now: u64,
)
    requires
        !search.active,
    ensures
        DialerView::initial(egress, deadline) == (DialerView {
            egress,
            deadline,
            a_done: false,
            aaaa_done: false,
            a_error: Seq::empty(),
            aaaa_error: Seq::empty(),
            queue: Seq::empty(),
            seen: Seq::empty(),
            blocked: false,
            active: false,
            attempt_deadline: deadline,
            last_error: None,
        }),
        search.answered(Family::V4, Err(error), now) == (DialerView {
            a_done: true,
            a_error: error,
            ..search
        }),
        search.answered(Family::V6, Err(error), now) == (DialerView {
            aaaa_done: true,
            aaaa_error: error,
            ..search
        }),
{
}

} // verus!
