//! A bounded ring of recent events, used to replay history to a newly attached
//! client. Independent of the dashboard's log (separate responsibility).

use std::collections::VecDeque;

use vstd::prelude::*;

use crate::metrics::Event;
use crate::ring::pushed;

verus! {

/// How many recent events to retain for replay.
pub const ADMIN_EVENT_RING_CAPACITY: usize = 500;

/// What the event bus has for the ring.
#[derive(Debug, PartialEq, Eq)]
pub enum BusRead {
    /// An event.
    Event(Event),
    /// The ring fell behind and missed events.
    Lagged,
    /// The bus is gone.
    Closed,
}

/// Ring of the most recent events.
pub struct EventRing {
    events: VecDeque<Event>,
}

impl View for EventRing {
    type V = Seq<Event>;

    closed spec fn view(&self) -> Seq<Event> {
        self.events@
    }
}

impl EventRing {
    /// Whether the ring holds no more than it has room for.
    pub open spec fn wf(self) -> bool {
        self@.len() <= ADMIN_EVENT_RING_CAPACITY
    }

    /// Create an empty ring.
    pub fn new() -> (ring: EventRing)
        ensures
            ring@ == Seq::<Event>::empty(),
            ring.wf(),
    {
        EventRing { events: VecDeque::with_capacity(ADMIN_EVENT_RING_CAPACITY) }
    }

    /// Push an event, evicting the oldest when at capacity.
    pub fn push(&mut self, ev: Event)
        ensures
            final(self)@ == pushed(old(self)@, ADMIN_EVENT_RING_CAPACITY as nat, ev),
            old(self).wf() ==> final(self).wf(),
    {
        if self.events.len() == ADMIN_EVENT_RING_CAPACITY {
            let _ = self.events.pop_front();
            assert(self.events@ =~= old(self)@.drop_first());
        }
        self.events.push_back(ev);
    }

    /// Take in one read of the event bus. Returns whether to read on.
    pub fn fill(&mut self, read: BusRead) -> (more: bool)
        ensures
            more == !(read is Closed),
            final(self)@ == match read {
                BusRead::Event(ev) => pushed(old(self)@, ADMIN_EVENT_RING_CAPACITY as nat, ev),
                _ => old(self)@,
            },
            old(self).wf() ==> final(self).wf(),
    {
        match read {
            BusRead::Event(ev) => {
                self.push(ev);
                true
            },
            BusRead::Lagged => true,
            BusRead::Closed => false,
        }
    }

    /// Copy the current contents (oldest first) for replay.
    pub fn snapshot(&self) -> (events: Vec<Event>)
        ensures
            events@ == self@,
    {
        let mut events: Vec<Event> = Vec::new();
        let mut i: usize = 0;
        while i < self.events.len()
            invariant
                i <= self.events@.len(),
                events@ == self.events@.take(i as int),
            decreases self.events@.len() - i,
        {
            events.push(self.events[i].clone());
            i += 1;
            assert(events@ =~= self.events@.take(i as int));
        }
        assert(self.events@.take(self.events@.len() as int) =~= self.events@);
        events
    }
}

impl Default for EventRing {
    fn default() -> (ring: EventRing)
        ensures
            ring@ == Seq::<Event>::empty(),
            ring.wf(),
    {
        EventRing::new()
    }
}

} // verus!
