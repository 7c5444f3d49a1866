use vstd::prelude::*;

use crate::common::timestamp::Timestamp;
use crate::pqueue::TimeKey;
use crate::schedule::event::Event;
use crate::timedqueue::insert_pos;
use crate::timedqueue::TimedQueue;

verus! {

/// A time-ordered queue of simulation events, bounded by a horizon: no
/// event may start after `end_time`, though it may resolve later. The
/// queue only grows by `put_event` and shrinks by `get_event`.
pub struct Schedule {
    pub end_time: Timestamp,
    pub schedule: TimedQueue,
    pub events: Vec<Option<Event>>,
}

impl Schedule {
    /// The queued events, ascending: each entry holds the start time and
    /// the insertion number of one event.
    pub open spec fn entries(&self) -> Seq<TimeKey> {
        self.schedule.keys()
    }

    /// The event behind an insertion number.
    pub open spec fn event_at(&self, id: int) -> Event {
        self.events@[id]->Some_0
    }

    /// The insertion number the next put event will get.
    pub open spec fn next_id(&self) -> int {
        self.events@.len() as int
    }

    pub open spec fn occupied(&self) -> nat {
        self.entries().len()
    }

    pub open spec fn wf(&self) -> bool {
        &&& self.schedule.wf()
        &&& forall|i: int|
            0 <= i < self.schedule.keys().len() ==> self.schedule.keys()[i].1
                < self.events@.len() && self.events@[self.schedule.keys()[i].1 as int] is Some
        &&& forall|i: int|
            0 <= i < self.schedule.keys().len() ==> self.schedule.keys()[i].0 <= self.end_time.0
    }

    /// Every queued event starts at or before the horizon.
    pub proof fn lemma_events_within_horizon(&self)
        requires
            self.wf(),
        ensures
            forall|i: int|
                0 <= i < self.entries().len() ==> self.entries()[i].0 <= self.end_time.0,
    {
    }

    /// Start times never decrease along the queue, so successive pops
    /// return events in non-decreasing time order.
    pub proof fn lemma_entries_time_sorted(&self)
        requires
            self.wf(),
        ensures
            forall|i: int, j: int|
                0 <= i <= j < self.entries().len() ==> self.entries()[i].0 <= self.entries()[j].0,
    {
        self.schedule.lemma_keys_sorted();
        assert forall|i: int, j: int|
            0 <= i <= j < self.entries().len() implies self.entries()[i].0
            <= self.entries()[j].0 by {
            if i < j {
                assert(crate::pqueue::key_le(self.schedule.keys()[i], self.schedule.keys()[j]));
            }
        }
    }

    pub fn new(end_time: Timestamp) -> (r: Self)
        ensures
            r.wf(),
            r.occupied() == 0,
            r.next_id() == 0,
            r.end_time == end_time,
    {
        Self { end_time, schedule: TimedQueue::new(), events: Vec::new() }
    }

    pub fn get_num_events(&self) -> (r: usize)
        requires
            self.wf(),
        ensures
            r == self.occupied(),
    {
        self.schedule.len()
    }

    pub fn no_more_events(&self) -> (r: bool)
        requires
            self.wf(),
        ensures
            r == (self.occupied() == 0),
    {
        self.schedule.len() == 0
    }

    /// Queues an event: it must start strictly after `current_time` when
    /// one is given, and no later than the horizon.
    pub fn put_event(&mut self, event_time: Timestamp, event: Event, current_time: Option<
        Timestamp,
    >)
        requires
            old(self).wf(),
            current_time matches Some(ct) ==> ct.0 < event_time.0,
            event_time.0 <= old(self).end_time.0,
        ensures
            final(self).wf(),
            final(self).end_time == old(self).end_time,
            final(self).occupied() == old(self).occupied() + 1,
            final(self).entries() == old(self).entries().insert(
                insert_pos(old(self).entries(), (event_time.0, old(self).next_id() as u64)),
                (event_time.0, old(self).next_id() as u64),
            ),
            final(self).event_at(old(self).next_id()) == event,
            final(self).next_id() == old(self).next_id() + 1,
            forall|id: int|
                0 <= id < old(self).next_id() ==> final(self).events@[id] == old(self).events@[id],
    {
        let id = self.events.len() as u64;
        self.events.push(Some(event));
        proof {
            assert forall|i: int|
                0 <= i < self.schedule.keys().len() implies self.schedule.keys()[i].1 != id by {
                assert(old(self).schedule.keys()[i].1 < old(self).events@.len());
            }
        }
        self.schedule.insert((event_time.0, id));
        proof {
            let s = old(self).entries();
            let key = (event_time.0, id);
            old(self).schedule.lemma_keys_sorted();
            crate::timedqueue::lemma_insert_pos_splits(s, key);
            let p = insert_pos(s, key);
            s.insert_ensures(p, key);
            assert forall|i: int|
                0 <= i < self.schedule.keys().len() implies self.schedule.keys()[i].1
                < self.events@.len() && self.events@[self.schedule.keys()[i].1 as int] is Some
                && self.schedule.keys()[i].0 <= self.end_time.0 by {
                if i < p {
                    assert(self.schedule.keys()[i] == s[i]);
                } else if i > p {
                    assert(self.schedule.keys()[i] == s[i - 1]);
                }
            }
        }
    }

    /// Removes and returns the event with the least start time, with
    /// that time; or nothing when the schedule is drained.
    pub fn get_event(&mut self) -> (r: (Option<Timestamp>, Option<Event>))
        requires
            old(self).wf(),
        ensures
            final(self).wf(),
            final(self).end_time == old(self).end_time,
            old(self).occupied() == 0 ==> r == (None::<Timestamp>, None::<Event>)
                && final(self).entries() == old(self).entries()
                && final(self).events@ == old(self).events@,
            old(self).occupied() > 0 ==> r.0 == Some(Timestamp(old(self).entries()[0].0))
                && r.1 == Some(old(self).event_at(old(self).entries()[0].1 as int))
                && final(self).entries() == old(self).entries().drop_first()
                && final(self).next_id() == old(self).next_id(),
            old(self).occupied() > 0 ==> forall|id: int|
                0 <= id < old(self).next_id() && id != old(self).entries()[0].1
                    ==> final(self).events@[id] == old(self).events@[id],
    {
        if self.schedule.len() == 0 {
            return (None, None);
        }
        let n = self.events.len();
        let key = self.schedule.pop_min();
        proof {
            old(self).schedule.lemma_keys_sorted();
            let s = old(self).entries();
            assert(key.1 < n);
            assert forall|i: int|
                0 <= i < self.schedule.keys().len() implies self.schedule.keys()[i]
                == s[i + 1] by {}
        }
        let idx = key.1 as usize;
        self.events.push(None);
        let taken = self.events.swap_remove(idx);
        proof {
            let s = old(self).entries();
            assert(self.events@.len() == old(self).events@.len());
            assert forall|i: int|
                0 <= i < self.schedule.keys().len() implies self.schedule.keys()[i].1
                < self.events@.len() && self.events@[self.schedule.keys()[i].1 as int]
                is Some by {
                assert(self.schedule.keys()[i] == s[i + 1]);
                assert(s[i + 1].1 != s[0].1);
                assert(self.events@[s[i + 1].1 as int] == old(self).events@[s[i + 1].1 as int]);
            }
        }
        match taken {
            Some(event) => (Some(Timestamp(key.0)), Some(event)),
            None => {
                proof {
                    assert(false);
                }
                (None, None)
            },
        }
    }
}

} // verus!
