//! Trusted boundary around the `priority_queue` crate.
//!
//! The simulator keeps its in-flight slots and its event schedule in
//! `priority_queue::PriorityQueue`, keyed by `Reverse`-wrapped pairs so
//! that the least pair comes out first. Everything stated here is what
//! that crate's source and std's documentation show; the verified
//! ordering layer lives in `timedqueue`.

use vstd::prelude::*;
use vstd::multiset::Multiset;

use priority_queue::PriorityQueue;
use std::cmp::Reverse;

verus! {

#[verifier::external_type_specification]
#[verifier::external_body]
#[verifier::reject_recursive_types(I)]
#[verifier::reject_recursive_types(P)]
#[verifier::reject_recursive_types(H)]
pub struct ExPriorityQueue<I, P, H>(PriorityQueue<I, P, H>);

#[verifier::external_type_specification]
#[verifier::external_body]
#[verifier::reject_recursive_types(T)]
pub struct ExReverse<T>(Reverse<T>);

/// A key in the simulator's time-ordered queues: a time paired with an
/// insertion number that breaks ties among equal times.
pub type TimeKey = (u64, u64);

/// `a` at or before `b` in the lexicographic order on pairs — the order
/// std documents for tuples of integers.
pub open spec fn key_le(a: TimeKey, b: TimeKey) -> bool {
    a.0 < b.0 || (a.0 == b.0 && a.1 <= b.1)
}

/// The entries a queue holds, each an item paired with the inner pair of
/// its `Reverse` priority.
pub uninterp spec fn queue_entries(q: PriorityQueue<TimeKey, Reverse<TimeKey>>) -> Multiset<
    (TimeKey, TimeKey),
>;

/// Relies on `PriorityQueue::new`: it returns an empty queue.
#[verifier::external_body]
pub(crate) fn queue_new() -> (q: PriorityQueue<TimeKey, Reverse<TimeKey>>)
    ensures
        queue_entries(q) == Multiset::<(TimeKey, TimeKey)>::empty(),
{
    PriorityQueue::new()
}

/// Relies on `PriorityQueue::len`: it returns the number of elements in
/// the queue.
#[verifier::external_body]
pub(crate) fn queue_len(q: &PriorityQueue<TimeKey, Reverse<TimeKey>>) -> (n: usize)
    ensures
        n == queue_entries(*q).len(),
{
    q.len()
}

/// Relies on `PriorityQueue::push`: inserting an item that no entry
/// already carries adds the (item, priority) entry and changes nothing
/// else. The priority pushed here is always the `Reverse` of the item.
#[verifier::external_body]
pub(crate) fn queue_push(q: &mut PriorityQueue<TimeKey, Reverse<TimeKey>>, key: TimeKey)
    requires
        forall|e: (TimeKey, TimeKey)| queue_entries(*old(q)).count(e) > 0 ==> e.0 != key,
    ensures
        queue_entries(*final(q)) == queue_entries(*old(q)).insert((key, key)),
{
    q.push(key, Reverse(key));
}

/// Relies on `PriorityQueue::pop`: it removes and returns an entry of
/// greatest priority, or `None` from an empty queue. `Reverse` turns
/// greatest priority into least inner pair, so the returned priority is
/// at or before every held priority in the pair order.
#[verifier::external_body]
pub(crate) fn queue_pop(q: &mut PriorityQueue<TimeKey, Reverse<TimeKey>>) -> (r: Option<
    (TimeKey, TimeKey),
>)
    ensures
        match r {
            None => queue_entries(*old(q)).len() == 0 && queue_entries(*final(q)) == queue_entries(
                *old(q),
            ),
            Some(entry) => queue_entries(*old(q)).count(entry) > 0 && queue_entries(*final(q))
                == queue_entries(*old(q)).remove(entry) && forall|e: (TimeKey, TimeKey)|
                queue_entries(*old(q)).count(e) > 0 ==> key_le(entry.1, e.1),
        },
{
    match q.pop() {
        None => None,
        Some((item, pri)) => Some((item, pri.0)),
    }
}

/// Relies on `PriorityQueue::peek`: it returns an entry of greatest
/// priority without removing it, or `None` from an empty queue.
#[verifier::external_body]
pub(crate) fn queue_peek(q: &PriorityQueue<TimeKey, Reverse<TimeKey>>) -> (r: Option<
    (TimeKey, TimeKey),
>)
    ensures
        match r {
            None => queue_entries(*q).len() == 0,
            Some(entry) => queue_entries(*q).count(entry) > 0 && forall|e: (TimeKey, TimeKey)|
                queue_entries(*q).count(e) > 0 ==> key_le(entry.1, e.1),
        },
{
    match q.peek() {
        None => None,
        Some((item, pri)) => Some((*item, pri.0)),
    }
}

} // verus!
