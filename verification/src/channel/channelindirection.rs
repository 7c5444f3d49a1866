use vstd::prelude::*;

use crate::channel::htlc::Htlc;
use crate::common::errortypes::ErrorType;
use crate::common::fee::apply_spec;
use crate::common::fee::Fee;
use crate::common::fee::FeeType;
use crate::common::params::MAX_NUM_SLOTS;
use crate::common::probability::Probability;
use crate::common::satoshi::Satoshi;
use crate::common::timestamp::Timestamp;
use crate::pqueue::key_le;
use crate::pqueue::TimeKey;
use crate::timedqueue::insert_pos;
use crate::timedqueue::TimedQueue;

verus! {

/// The capacity a slot queue gets: the requested number of slots, or the
/// protocol maximum when none is requested.
pub open spec fn resolved_num_slots(num_slots: Option<usize>) -> usize {
    match num_slots {
        Some(n) => n,
        None => MAX_NUM_SLOTS,
    }
}

/// The state of one channel direction: two fee schedules, its failure
/// behaviour, and a bounded store of slots for in-flight transfers, kept
/// ordered by resolution time with insertion order breaking ties.
pub struct ChannelInDirection {
    pub upfront_fee: Fee,
    pub success_fee: Fee,
    pub deliberately_fail_prob: Probability,
    pub spoofing_error_type: ErrorType,
    pub num_slots: usize,
    pub slots: TimedQueue,
    pub htlcs: Vec<Htlc>,
}

impl ChannelInDirection {
    /// The number of slots this direction was created with.
    pub open spec fn capacity(&self) -> usize {
        self.num_slots
    }

    /// The occupied slots, ascending: each holds the resolution time and
    /// the insertion number of one in-flight transfer.
    pub open spec fn entries(&self) -> Seq<TimeKey> {
        self.slots.keys()
    }

    /// The transfer behind an insertion number.
    pub open spec fn htlc_at(&self, id: int) -> Htlc {
        self.htlcs@[id]
    }

    /// The insertion number the next pushed transfer will get.
    pub open spec fn next_id(&self) -> int {
        self.htlcs@.len() as int
    }

    pub open spec fn occupied(&self) -> nat {
        self.entries().len()
    }

    pub open spec fn wf(&self) -> bool {
        &&& self.slots.wf()
        &&& 1 <= self.num_slots <= MAX_NUM_SLOTS
        &&& self.slots.keys().len() <= self.num_slots
        &&& forall|i: int|
            0 <= i < self.slots.keys().len() ==> self.slots.keys()[i].1 < self.htlcs@.len()
        &&& self.upfront_fee.wf()
        &&& self.success_fee.wf()
    }

    /// The same configuration: fees, failure behaviour, and capacity.
    pub open spec fn same_setup(&self, other: &Self) -> bool {
        &&& self.upfront_fee == other.upfront_fee
        &&& self.success_fee == other.success_fee
        &&& self.deliberately_fail_prob == other.deliberately_fail_prob
        &&& self.spoofing_error_type == other.spoofing_error_type
        &&& self.capacity() == other.capacity()
    }

    /// The same transfer store: every insertion number maps to the same
    /// transfer.
    pub open spec fn same_htlcs(&self, other: &Self) -> bool {
        &&& self.next_id() == other.next_id()
        &&& forall|id: int| 0 <= id < self.next_id() ==> self.htlc_at(id) == other.htlc_at(id)
    }

    /// The fee schedule of the given type.
    pub open spec fn fee_of(&self, fee_type: FeeType) -> Fee {
        match fee_type {
            FeeType::Success => self.success_fee,
            FeeType::Upfront => self.upfront_fee,
        }
    }

    /// How many transfers past the free ones must leave to have `needed`
    /// slots free; at or below zero when the free slots already suffice.
    pub open spec fn deficit(&self, needed: usize) -> int {
        needed - (self.capacity() - self.occupied())
    }

    /// The deficit, clamped at zero.
    pub open spec fn clamped_deficit(&self, needed: usize) -> int {
        if self.deficit(needed) > 0 {
            self.deficit(needed)
        } else {
            0
        }
    }

    /// Whether `needed` slots can be freed at `now`: either enough are
    /// free, or the transfers that must leave have all matured.
    pub open spec fn can_free(&self, now: u64, needed: usize) -> bool {
        self.deficit(needed) <= 0 || self.entries()[self.deficit(needed) - 1].0 <= now
    }

    /// A well-formed direction never holds more transfers than its
    /// capacity, which lies between one and the protocol maximum.
    pub proof fn lemma_occupancy_bounded(&self)
        requires
            self.wf(),
        ensures
            self.occupied() <= self.capacity(),
            1 <= self.capacity() <= MAX_NUM_SLOTS,
    {
    }

    /// Resolution times never decrease along the occupied slots, so
    /// successive pops return transfers in non-decreasing time order.
    pub proof fn lemma_entries_time_sorted(&self)
        requires
            self.wf(),
        ensures
            forall|i: int, j: int|
                0 <= i <= j < self.entries().len() ==> self.entries()[i].0 <= self.entries()[j].0,
    {
        self.slots.lemma_keys_sorted();
        assert forall|i: int, j: int|
            0 <= i <= j < self.entries().len() implies self.entries()[i].0
            <= self.entries()[j].0 by {
            if i < j {
                assert(key_le(self.slots.keys()[i], self.slots.keys()[j]));
            }
        }
    }

    /// Capacity can be freed exactly when every transfer that would have
    /// to leave has matured: the earliest-resolving entries covering the
    /// deficit all resolve at or before `now`.
    pub proof fn lemma_can_free_means_matured_prefix(&self, now: u64, needed: usize)
        requires
            self.wf(),
            needed <= self.capacity(),
        ensures
            self.can_free(now, needed) <==> forall|i: int|
                0 <= i < self.clamped_deficit(needed) ==> self.entries()[i].0 <= now,
    {
        self.lemma_entries_time_sorted();
    }

    pub fn new(
        num_slots: Option<usize>,
        upfront_fee: Option<Fee>,
        success_fee: Option<Fee>,
        deliberately_fail_prob: Option<Probability>,
        spoofing_error_type: Option<ErrorType>,
    ) -> (r: Self)
        requires
            num_slots matches Some(n) ==> 1 <= n <= MAX_NUM_SLOTS,
            upfront_fee matches Some(f) ==> f.wf(),
            success_fee matches Some(f) ==> f.wf(),
        ensures
            r.wf(),
            r.occupied() == 0,
            r.next_id() == 0,
            r.capacity() == resolved_num_slots(num_slots),
            r.upfront_fee == (match upfront_fee {
                Some(f) => f,
                None => Fee::default_spec(),
            }),
            r.success_fee == (match success_fee {
                Some(f) => f,
                None => Fee::default_spec(),
            }),
            r.deliberately_fail_prob == (match deliberately_fail_prob {
                Some(p) => p,
                None => Probability(0),
            }),
            r.spoofing_error_type == (match spoofing_error_type {
                Some(e) => e,
                None => ErrorType::LowBalance,
            }),
    {
        ChannelInDirection {
            upfront_fee: match upfront_fee {
                Some(f) => f,
                None => Fee::default(),
            },
            success_fee: match success_fee {
                Some(f) => f,
                None => Fee::default(),
            },
            deliberately_fail_prob: match deliberately_fail_prob {
                Some(p) => p,
                None => Probability(0),
            },
            spoofing_error_type: match spoofing_error_type {
                Some(e) => e,
                None => ErrorType::LowBalance,
            },
            num_slots: match num_slots {
                Some(n) => n,
                None => MAX_NUM_SLOTS,
            },
            slots: Self::create_slots_queue(num_slots),
            htlcs: Vec::new(),
        }
    }

    /// A direction with every parameter left at its default.
    pub fn new_default() -> (r: Self)
        ensures
            r.wf(),
            r.occupied() == 0,
            r.capacity() == MAX_NUM_SLOTS,
    {
        Self::new(None, None, None, None, None)
    }

    /// An empty slot queue for the requested capacity.
    #[allow(unused_variables)]
    fn create_slots_queue(num_slots: Option<usize>) -> (r: TimedQueue)
        requires
            num_slots matches Some(n) ==> 1 <= n <= MAX_NUM_SLOTS,
        ensures
            r.wf(),
            r.keys() == Seq::<TimeKey>::empty(),
    {
        TimedQueue::new()
    }

    /// Replaces the slot queue with an empty one of the given capacity.
    pub fn reset_slots(&mut self, num_slots: Option<usize>)
        requires
            old(self).wf(),
            num_slots matches Some(n) ==> 1 <= n <= MAX_NUM_SLOTS,
        ensures
            final(self).wf(),
            final(self).occupied() == 0,
            final(self).capacity() == resolved_num_slots(num_slots),
            final(self).upfront_fee == old(self).upfront_fee,
            final(self).success_fee == old(self).success_fee,
            final(self).deliberately_fail_prob == old(self).deliberately_fail_prob,
            final(self).spoofing_error_type == old(self).spoofing_error_type,
    {
        self.slots = Self::create_slots_queue(num_slots);
        self.num_slots = match num_slots {
            Some(n) => n,
            None => MAX_NUM_SLOTS,
        };
    }

    pub fn set_fee(&mut self, fee_type: FeeType, fee: Fee)
        requires
            old(self).wf(),
            fee.wf(),
        ensures
            final(self).wf(),
            final(self).fee_of(fee_type) == fee,
            match fee_type {
                FeeType::Success => final(self).upfront_fee == old(self).upfront_fee,
                FeeType::Upfront => final(self).success_fee == old(self).success_fee,
            },
            final(self).entries() == old(self).entries(),
            final(self).same_htlcs(old(self)),
            final(self).capacity() == old(self).capacity(),
            final(self).deliberately_fail_prob == old(self).deliberately_fail_prob,
            final(self).spoofing_error_type == old(self).spoofing_error_type,
    {
        match fee_type {
            FeeType::Success => self.success_fee = fee,
            FeeType::Upfront => self.upfront_fee = fee,
        }
    }

    /// The fee of the given type that this direction charges on an
    /// amount.
    pub fn requires_fee(&self, fee_type: FeeType, amount: &Satoshi) -> (r: Satoshi)
        requires
            self.wf(),
            apply_spec(self.fee_of(fee_type), amount.0) <= u64::MAX,
        ensures
            r.0 == apply_spec(self.fee_of(fee_type), amount.0),
    {
        match fee_type {
            FeeType::Success => self.success_fee.apply(amount),
            FeeType::Upfront => self.upfront_fee.apply(amount),
        }
    }

    /// Both fees on the same amount, added together.
    pub fn requires_total_fee(&self, amount: &Satoshi) -> (r: Satoshi)
        requires
            self.wf(),
            apply_spec(self.success_fee, amount.0) + apply_spec(self.upfront_fee, amount.0)
                <= u64::MAX,
        ensures
            r.0 == apply_spec(self.success_fee, amount.0) + apply_spec(self.upfront_fee, amount.0),
    {
        let success_fee = self.requires_fee(FeeType::Success, amount);
        let upfront_fee = self.requires_fee(FeeType::Upfront, amount);
        success_fee.add(&upfront_fee)
    }

    pub fn all_slots_free(&self) -> (r: bool)
        requires
            self.wf(),
        ensures
            r == (self.occupied() == 0),
    {
        self.slots.len() == 0
    }

    pub fn get_num_slots_busy(&self) -> (r: usize)
        requires
            self.wf(),
        ensures
            r == self.occupied(),
    {
        self.slots.len()
    }

    pub fn get_num_slots_free(&self) -> (r: usize)
        requires
            self.wf(),
        ensures
            r == self.capacity() - self.occupied(),
    {
        self.num_slots - self.slots.len()
    }

    pub fn all_slots_busy(&self) -> (r: bool)
        requires
            self.wf(),
        ensures
            r == (self.occupied() == self.capacity()),
    {
        self.get_num_slots_free() == 0
    }

    /// Puts a transfer into a slot; callers must have ensured a free
    /// slot beforehand. Among equal resolution times it will come out
    /// after the transfers pushed earlier.
    pub fn push_htlc(&mut self, resolution_time: Timestamp, htlc: Htlc)
        requires
            old(self).wf(),
            old(self).occupied() < old(self).capacity(),
        ensures
            final(self).wf(),
            final(self).occupied() == old(self).occupied() + 1,
            final(self).entries() == old(self).entries().insert(
                insert_pos(old(self).entries(), (resolution_time.0, old(self).next_id() as u64)),
                (resolution_time.0, old(self).next_id() as u64),
            ),
            final(self).htlc_at(old(self).next_id()) == htlc,
            final(self).next_id() == old(self).next_id() + 1,
            forall|id: int|
                0 <= id < old(self).next_id() ==> final(self).htlc_at(id) == old(self).htlc_at(
                    id,
                ),
            final(self).same_setup(old(self)),
    {
        let id = self.htlcs.len() as u64;
        self.htlcs.push(htlc);
        proof {
            assert forall|i: int|
                0 <= i < self.slots.keys().len() implies self.slots.keys()[i].1 != id by {
                assert(old(self).slots.keys()[i].1 < old(self).htlcs@.len());
            }
        }
        self.slots.insert((resolution_time.0, id));
        proof {
            let s = old(self).entries();
            let key = (resolution_time.0, id);
            old(self).slots.lemma_keys_sorted();
            crate::timedqueue::lemma_insert_pos_splits(s, key);
            let p = insert_pos(s, key);
            s.insert_ensures(p, key);
            assert forall|i: int|
                0 <= i < self.slots.keys().len() implies self.slots.keys()[i].1
                < self.htlcs@.len() by {
                if i < p {
                    assert(self.slots.keys()[i] == s[i]);
                } else if i > p {
                    assert(self.slots.keys()[i] == s[i - 1]);
                }
            }
        }
    }

    /// Removes and returns the transfer with the least resolution time;
    /// among equal times, the one pushed earliest.
    pub fn pop_htlc(&mut self) -> (r: (Htlc, Timestamp))
        requires
            old(self).wf(),
            old(self).occupied() > 0,
        ensures
            final(self).wf(),
            r.0 == old(self).htlc_at(old(self).entries()[0].1 as int),
            r.1 == Timestamp(old(self).entries()[0].0),
            final(self).entries() == old(self).entries().drop_first(),
            final(self).occupied() == old(self).occupied() - 1,
            final(self).same_htlcs(old(self)),
            final(self).same_setup(old(self)),
    {
        let n = self.htlcs.len();
        let key = self.slots.pop_min();
        proof {
            assert(key.1 < n);
            let s = old(self).entries();
            assert forall|i: int|
                0 <= i < self.slots.keys().len() implies self.slots.keys()[i].1
                < self.htlcs@.len() by {
                assert(self.slots.keys()[i] == s[i + 1]);
            }
        }
        let htlc = self.htlcs[key.1 as usize].clone();
        (htlc, Timestamp(key.0))
    }

    /// The least resolution time among the held transfers.
    pub fn get_earliest_htlc_resolution_time(&self) -> (r: Timestamp)
        requires
            self.wf(),
            self.occupied() > 0,
        ensures
            r == Timestamp(self.entries()[0].0),
            forall|i: int| 0 <= i < self.entries().len() ==> r.0 <= self.entries()[i].0,
    {
        let key = self.slots.peek_min();
        proof {
            self.lemma_entries_time_sorted();
        }
        Timestamp(key.0)
    }

    /// Ensures `num_slots_needed` free slots, all or nothing. When too
    /// few are free, the earliest-resolving transfers leave one by one —
    /// but only if they have matured, that is, resolve at or before
    /// `time`. If an unmatured transfer stands in the way, every removal
    /// is undone and the direction is exactly as before the call.
    pub fn ensure_free_slots(&mut self, time: &Timestamp, num_slots_needed: usize) -> (r: (
        bool,
        Vec<(Htlc, Timestamp)>,
    ))
        requires
            old(self).wf(),
            num_slots_needed <= old(self).capacity(),
        ensures
            final(self).wf(),
            final(self).same_setup(old(self)),
            final(self).same_htlcs(old(self)),
            r.0 == old(self).can_free(time.0, num_slots_needed),
            r.0 ==> final(self).capacity() - final(self).occupied() >= num_slots_needed,
            !r.0 ==> final(self).entries() == old(self).entries() && r.1@.len() == 0,
            r.0 ==> final(self).entries() == old(self).entries().skip(
                old(self).clamped_deficit(num_slots_needed),
            ),
            r.0 ==> r.1@.len() == old(self).clamped_deficit(num_slots_needed),
            r.0 ==> forall|i: int|
                0 <= i < old(self).clamped_deficit(num_slots_needed) ==> r.1@[i] == (
                old(self).htlc_at(old(self).entries()[i].1 as int),
                Timestamp(old(self).entries()[i].0),
                ),
            r.0 ==> forall|i: int|
                0 <= i < old(self).clamped_deficit(num_slots_needed) ==> old(self).entries()[i].0
                    <= time.0,
    {
        let num_free = self.get_num_slots_free();
        if num_free >= num_slots_needed {
            proof {
                assert(old(self).entries().skip(0) =~= old(self).entries());
            }
            return (true, Vec::new());
        }
        let k = num_slots_needed - num_free;
        let ghost orig = *old(self);
        let mut released: Vec<(Htlc, Timestamp)> = Vec::new();
        let mut popped: Vec<TimeKey> = Vec::new();
        let mut count: usize = 0;
        proof {
            orig.slots.lemma_keys_sorted();
            assert(self.entries() =~= orig.entries().skip(0));
        }
        while count < k
            invariant
                self.wf(),
                orig.wf(),
                orig == *old(self),
                self.same_setup(&orig),
                self.same_htlcs(&orig),
                0 < k <= orig.occupied(),
                k == orig.clamped_deficit(num_slots_needed),
                count <= k,
                self.entries() == orig.entries().skip(count as int),
                released@.len() == count,
                popped@.len() == count,
                forall|i: int| 0 <= i < count ==> popped@[i] == orig.entries()[i],
                forall|i: int|
                    0 <= i < count ==> released@[i] == (
                    orig.htlc_at(orig.entries()[i].1 as int),
                    Timestamp(orig.entries()[i].0),
                    ),
                forall|i: int| 0 <= i < count ==> orig.entries()[i].0 <= time.0,
            decreases k - count,
        {
            proof {
                orig.slots.lemma_keys_sorted();
            }
            let key = self.slots.peek_min();
            proof {
                assert(key == orig.entries()[count as int]);
            }
            if key.0 <= time.0 {
                let ghost pre = *self;
                let pair = self.pop_htlc();
                released.push(pair);
                popped.push(key);
                count += 1;
                proof {
                    let id = orig.entries()[count - 1].1 as int;
                    assert(pre.entries()[0] == orig.entries()[count - 1]);
                    assert(0 <= id < pre.next_id());
                    assert(pre.htlc_at(id) == orig.htlc_at(id));
                    assert(self.entries() =~= orig.entries().skip(count as int));
                }
            } else {
                // roll every removal back, re-inserting the keys under
                // their original insertion numbers
                let mut j: usize = count;
                while j > 0
                    invariant
                        self.wf(),
                        orig.wf(),
                        orig == *old(self),
                        self.same_setup(&orig),
                        self.same_htlcs(&orig),
                        0 < k <= orig.occupied(),
                        count < k,
                        j <= count,
                        popped@.len() == count,
                        forall|i: int| 0 <= i < count ==> popped@[i] == orig.entries()[i],
                        self.entries() == orig.entries().skip(j as int),
                    decreases j,
                {
                    j -= 1;
                    let key = popped[j];
                    proof {
                        orig.slots.lemma_keys_sorted();
                        let s = orig.entries();
                        let cur = self.entries();
                        assert(cur == s.skip(j + 1));
                        assert(cur.len() == s.len() - j - 1);
                        assert forall|i: int| 0 <= i < cur.len() implies cur[i].1 != key.1 by {
                            assert(cur[i] == s[j + 1 + i]);
                            assert(s[j as int].1 != s[j + 1 + i].1);
                        }
                        assert(cur.len() > 0);
                        assert(cur[0] == s[j + 1]);
                        assert(key_le(s[j as int], s[j + 1]));
                        assert(s[j as int].1 != s[j + 1].1);
                        assert(!key_le(cur[0], key));
                        assert(insert_pos(cur, key) == 0);
                    }
                    self.slots.insert(key);
                    proof {
                        assert(self.entries() =~= orig.entries().skip(j as int));
                        assert forall|i: int|
                            0 <= i < self.entries().len() implies self.entries()[i].1
                            < self.htlcs@.len() by {
                            assert(self.entries()[i] == orig.entries()[j + i]);
                            assert(orig.entries()[j + i].1 < orig.htlcs@.len());
                        }
                    }
                }
                proof {
                    assert(orig.entries().skip(0) =~= orig.entries());
                    // the transfer at the clamped deficit has not
                    // matured either, being no earlier than this one
                    assert(orig.entries()[count as int].0 > time.0);
                    assert(key_le(orig.entries()[count as int], orig.entries()[k - 1]));
                }
                return (false, Vec::new());
            }
        }
        (true, released)
    }
}

} // verus!
