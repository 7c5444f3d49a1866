//! A verified queue of time keys that always yields the least key first.
//!
//! The keys live in a `priority_queue::PriorityQueue` behind the trusted
//! boundary of `pqueue`; a ghost sequence, kept strictly ascending, ties
//! the heap's entries to the order in which they will come out.

use vstd::prelude::*;
use vstd::multiset::Multiset;

use priority_queue::PriorityQueue;
use std::cmp::Reverse;

use crate::pqueue::key_le;
use crate::pqueue::queue_entries;
use crate::pqueue::queue_len;
use crate::pqueue::queue_new;
use crate::pqueue::queue_peek;
use crate::pqueue::queue_pop;
use crate::pqueue::queue_push;
use crate::pqueue::TimeKey;

verus! {

broadcast use vstd::multiset::group_multiset_axioms;

/// An ascending sequence of keys in which no insertion number repeats.
pub open spec fn sorted_distinct(s: Seq<TimeKey>) -> bool {
    &&& forall|i: int, j: int| 0 <= i < j < s.len() ==> key_le(s[i], s[j])
    &&& forall|i: int, j: int| 0 <= i < j < s.len() ==> s[i].1 != s[j].1
}

/// The heap entries that a sequence of keys stands for: each key is an
/// item carrying itself as its priority.
pub open spec fn entries_of(s: Seq<TimeKey>) -> Multiset<(TimeKey, TimeKey)>
    decreases s.len(),
{
    if s.len() == 0 {
        Multiset::<(TimeKey, TimeKey)>::empty()
    } else {
        entries_of(s.drop_first()).insert((s[0], s[0]))
    }
}

/// Where a key lands when inserted into an ascending sequence: after
/// every key at or below it, before the rest.
pub open spec fn insert_pos(s: Seq<TimeKey>, k: TimeKey) -> int
    decreases s.len(),
{
    if s.len() == 0 {
        0
    } else if key_le(s[0], k) {
        1 + insert_pos(s.drop_first(), k)
    } else {
        0
    }
}

pub proof fn lemma_entries_of_len(s: Seq<TimeKey>)
    ensures
        entries_of(s).len() == s.len(),
    decreases s.len(),
{
    if s.len() > 0 {
        lemma_entries_of_len(s.drop_first());
    }
}

pub proof fn lemma_entries_of_count(s: Seq<TimeKey>, e: (TimeKey, TimeKey))
    ensures
        entries_of(s).count(e) > 0 <==> (e.0 == e.1 && s.contains(e.0)),
    decreases s.len(),
{
    if s.len() > 0 {
        lemma_entries_of_count(s.drop_first(), e);
        if s.drop_first().contains(e.0) {
            let i = choose|i: int|
                0 <= i < s.drop_first().len() && s.drop_first()[i] == e.0;
            assert(s[i + 1] == e.0);
        }
        if s.contains(e.0) && s[0] != e.0 {
            let i = choose|i: int| 0 <= i < s.len() && s[i] == e.0;
            assert(s.drop_first()[i - 1] == e.0);
        }
    }
}

pub proof fn lemma_entries_of_insert(s: Seq<TimeKey>, k: TimeKey, i: int)
    requires
        0 <= i <= s.len(),
    ensures
        entries_of(s.insert(i, k)) == entries_of(s).insert((k, k)),
    decreases s.len(),
{
    let t = s.insert(i, k);
    if i == 0 {
        assert(t[0] == k);
        assert(t.drop_first() =~= s);
    } else {
        assert(t[0] == s[0]);
        assert(t.drop_first() =~= s.drop_first().insert(i - 1, k));
        lemma_entries_of_insert(s.drop_first(), k, i - 1);
        assert(entries_of(s.drop_first()).insert((k, k)).insert((s[0], s[0]))
            =~= entries_of(s.drop_first()).insert((s[0], s[0])).insert((k, k)));
    }
}

/// The insertion position splits an ascending sequence exactly: keys
/// before it are at or below the new key, keys after it are above.
pub proof fn lemma_insert_pos_splits(s: Seq<TimeKey>, k: TimeKey)
    requires
        sorted_distinct(s),
    ensures
        0 <= insert_pos(s, k) <= s.len(),
        forall|i: int| 0 <= i < insert_pos(s, k) ==> key_le(s[i], k),
        forall|i: int| insert_pos(s, k) <= i < s.len() ==> !key_le(s[i], k),
    decreases s.len(),
{
    if s.len() > 0 {
        let d = s.drop_first();
        assert(forall|i: int| 0 <= i < d.len() ==> d[i] == s[i + 1]);
        lemma_insert_pos_splits(d, k);
        let p = insert_pos(s, k);
        if key_le(s[0], k) {
            assert forall|i: int| p <= i < s.len() implies !key_le(s[i], k) by {
                assert(!key_le(d[i - 1], k));
            }
            assert forall|i: int| 0 <= i < p implies key_le(s[i], k) by {
                if i > 0 {
                    assert(key_le(d[i - 1], k));
                }
            }
        } else {
            assert forall|i: int| 0 <= i < s.len() implies !key_le(s[i], k) by {
                if i > 0 {
                    assert(key_le(s[0], s[i]));
                }
            }
        }
    }
}

/// Inserting a key with a fresh insertion number at its position keeps
/// the sequence ascending and its insertion numbers distinct.
pub proof fn lemma_insert_keeps_sorted(s: Seq<TimeKey>, k: TimeKey)
    requires
        sorted_distinct(s),
        forall|i: int| 0 <= i < s.len() ==> s[i].1 != k.1,
    ensures
        sorted_distinct(s.insert(insert_pos(s, k), k)),
{
    lemma_insert_pos_splits(s, k);
    let p = insert_pos(s, k);
    let t = s.insert(p, k);
    assert(forall|i: int| 0 <= i < p ==> t[i] == s[i]);
    assert(t[p] == k);
    assert(forall|i: int| p < i < t.len() ==> t[i] == s[i - 1]);
    assert forall|i: int, j: int| 0 <= i < j < t.len() implies key_le(t[i], t[j]) by {
        if i == p {
            assert(!key_le(s[j - 1], k));
        } else if j == p {
            assert(key_le(s[i], k));
        }
    }
}

/// A queue of time keys that always yields the least key first, in the
/// lexicographic order on (time, insertion number).
pub struct TimedQueue {
    heap: PriorityQueue<TimeKey, Reverse<TimeKey>>,
    order: Ghost<Seq<TimeKey>>,
}

impl TimedQueue {
    /// The keys currently held, in the order they will come out.
    pub closed spec fn keys(&self) -> Seq<TimeKey> {
        self.order@
    }

    pub closed spec fn wf(&self) -> bool {
        &&& sorted_distinct(self.order@)
        &&& queue_entries(self.heap) == entries_of(self.order@)
    }

    /// The keys of a well-formed queue are ascending, with distinct
    /// insertion numbers.
    pub proof fn lemma_keys_sorted(&self)
        requires
            self.wf(),
        ensures
            sorted_distinct(self.keys()),
    {
    }

    pub fn new() -> (r: Self)
        ensures
            r.wf(),
            r.keys() == Seq::<TimeKey>::empty(),
    {
        let heap = queue_new();
        TimedQueue { heap, order: Ghost(Seq::empty()) }
    }

    pub fn len(&self) -> (n: usize)
        requires
            self.wf(),
        ensures
            n == self.keys().len(),
    {
        proof {
            lemma_entries_of_len(self.order@);
        }
        queue_len(&self.heap)
    }

    /// Inserts a key whose insertion number no held key repeats.
    pub fn insert(&mut self, key: TimeKey)
        requires
            old(self).wf(),
            forall|i: int| 0 <= i < old(self).keys().len() ==> old(self).keys()[i].1 != key.1,
        ensures
            final(self).wf(),
            final(self).keys() == old(self).keys().insert(insert_pos(old(self).keys(), key), key),
    {
        proof {
            let s = old(self).order@;
            assert(s == old(self).keys());
            assert forall|i: int| 0 <= i < s.len() implies s[i].1 != key.1 by {
                assert(old(self).keys()[i].1 != key.1);
            }
            assert forall|e: (TimeKey, TimeKey)|
                queue_entries(self.heap).count(e) > 0 implies e.0 != key by {
                lemma_entries_of_count(s, e);
                if e.0 == e.1 && s.contains(e.0) {
                    let i = choose|i: int| 0 <= i < s.len() && s[i] == e.0;
                    assert(s[i].1 != key.1);
                }
            }
        }
        queue_push(&mut self.heap, key);
        proof {
            let s = old(self).order@;
            assert forall|i: int| 0 <= i < s.len() implies s[i].1 != key.1 by {
                assert(old(self).keys()[i].1 != key.1);
            }
            lemma_insert_pos_splits(s, key);
            lemma_insert_keeps_sorted(s, key);
            lemma_entries_of_insert(s, key, insert_pos(s, key));
        }
        self.order = Ghost(old(self).order@.insert(insert_pos(old(self).order@, key), key));
    }

    /// Removes and returns the least key.
    pub fn pop_min(&mut self) -> (r: TimeKey)
        requires
            old(self).wf(),
            old(self).keys().len() > 0,
        ensures
            final(self).wf(),
            r == old(self).keys()[0],
            final(self).keys() == old(self).keys().drop_first(),
    {
        proof {
            lemma_entries_of_len(self.order@);
        }
        let popped = queue_pop(&mut self.heap);
        match popped {
            Some(entry) => {
                proof {
                    let s = old(self).order@;
                    let first = s[0];
                    lemma_entries_of_count(s, entry);
                    lemma_entries_of_count(s, (first, first));
                    assert(s.contains(first));
                    let i = choose|i: int| 0 <= i < s.len() && s[i] == entry.0;
                    assert(key_le(first, s[i]));
                    assert(entry.0 == first);
                    assert(queue_entries(self.heap) =~= entries_of(s.drop_first()));
                    assert(sorted_distinct(s.drop_first())) by {
                        assert(forall|i: int|
                            0 <= i < s.drop_first().len() ==> s.drop_first()[i] == s[i + 1]);
                    }
                }
                self.order = Ghost(old(self).order@.drop_first());
                entry.0
            },
            None => {
                proof {
                    assert(false);
                }
                (0, 0)
            },
        }
    }

    /// Returns the least key without removing it.
    pub fn peek_min(&self) -> (r: TimeKey)
        requires
            self.wf(),
            self.keys().len() > 0,
        ensures
            r == self.keys()[0],
    {
        proof {
            lemma_entries_of_len(self.order@);
        }
        let peeked = queue_peek(&self.heap);
        match peeked {
            Some(entry) => {
                proof {
                    let s = self.order@;
                    let first = s[0];
                    lemma_entries_of_count(s, entry);
                    lemma_entries_of_count(s, (first, first));
                    assert(s.contains(first));
                    let i = choose|i: int| 0 <= i < s.len() && s[i] == entry.0;
                    assert(key_le(first, s[i]));
                    assert(entry.0 == first);
                }
                entry.0
            },
            None => {
                proof {
                    assert(false);
                }
                (0, 0)
            },
        }
    }
}

} // verus!
