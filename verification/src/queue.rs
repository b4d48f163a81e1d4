use std::collections::VecDeque;

use vstd::prelude::*;

use crate::record::RecordKey;
use crate::record::TelemetryRecord;
use crate::record::records_model;

verus! {

/// `s` cut down to at most `cap` entries, keeping the front (newest) ones.
pub open spec fn clamped(s: Seq<RecordKey>, cap: nat) -> Seq<RecordKey> {
    if s.len() <= cap {
        s
    } else {
        s.take(cap as int)
    }
}

/// The queue after merging `fresh` (in arrival order, each entering at the
/// front) into `q` and enforcing the bound: the last-arrived record stands
/// foremost, and the oldest entries beyond `cap` are shed.
pub open spec fn merged(fresh: Seq<RecordKey>, q: Seq<RecordKey>, cap: nat) -> Seq<RecordKey> {
    clamped(fresh.reverse() + q, cap)
}

/// Capacity-bounded buffer of records awaiting durable delivery.
///
/// Freshly normalized records and retries enter at the front; delivery
/// drains from the back, so the oldest buffered record is attempted first.
/// When an insertion exceeds the capacity, the oldest (backmost) entries
/// are shed: an explicit lossy-backpressure policy that keeps memory
/// bounded under sustained destination unavailability.
///
/// The view is the sequence of buffered natural keys, front (newest) first.
pub struct BoundedQueue {
    items: VecDeque<TelemetryRecord>,
    capacity: usize,
}

impl View for BoundedQueue {
    type V = Seq<RecordKey>;

    closed spec fn view(&self) -> Seq<RecordKey> {
        records_model(self.items@)
    }
}

impl BoundedQueue {
    /// The fixed bound on how many records the queue will hold.
    pub closed spec fn cap(&self) -> nat {
        self.capacity as nat
    }

    /// An empty queue with the given capacity.
    pub fn new(capacity: usize) -> (q: BoundedQueue)
        ensures
            q@ == Seq::<RecordKey>::empty(),
            q.cap() == capacity,
    {
        let q = BoundedQueue { items: VecDeque::new(), capacity };
        proof {
            assert(q@ =~= Seq::<RecordKey>::empty());
        }
        q
    }

    pub fn capacity(&self) -> (c: usize)
        ensures
            c == self.cap(),
    {
        self.capacity
    }

    pub fn len(&self) -> (n: usize)
        ensures
            n == self@.len(),
    {
        self.items.len()
    }

    pub fn is_empty(&self) -> (b: bool)
        ensures
            b == (self@.len() == 0),
    {
        self.items.len() == 0
    }

    /// The buffered record at position `i`, counted from the front (newest).
    pub fn get(&self, i: usize) -> (r: &TelemetryRecord)
        requires
            i < self@.len(),
        ensures
            r@ == self@[i as int],
    {
        &self.items[i]
    }

    /// Merge freshly arrived records into the queue: each enters at the
    /// front in arrival order, then the bound is enforced by shedding the
    /// oldest entries.  Returns how many records were shed — a reportable
    /// event (expected lossy backpressure), not an error.
    #[verifier::loop_isolation(false)]
    #[verifier::rlimit(60)]
    pub fn merge_front(&mut self, fresh: Vec<TelemetryRecord>) -> (shed: usize)
        ensures
            final(self)@ == merged(records_model(fresh@), old(self)@, old(self).cap()),
            final(self).cap() == old(self).cap(),
            final(self)@.len() <= old(self).cap(),
            shed == if records_model(fresh@).len() + old(self)@.len() > old(self).cap() {
                records_model(fresh@).len() + old(self)@.len() - old(self).cap()
            } else {
                0int
            },
    {
        let ghost fresh0 = records_model(fresh@);
        let ghost q0 = self@;
        let mut fresh = fresh;
        proof {
            assert(fresh0.take(0int).reverse() =~= Seq::<RecordKey>::empty());
            assert(records_model(self.items@) =~= fresh0.take(0int).reverse() + q0);
        }
        let ghost mut taken: int = 0;
        while fresh.len() > 0
            invariant
                0 <= taken <= fresh0.len(),
                records_model(fresh@) =~= fresh0.skip(taken),
                records_model(self.items@) =~= fresh0.take(taken).reverse() + q0,
                self.capacity == old(self).cap(),
            decreases fresh.len(),
        {
            let ghost fpre = fresh@;
            let r = fresh.remove(0);
            proof {
                assert(records_model(fpre)[0] == fresh0.skip(taken)[0]);
                assert(r@ == fresh0[taken]);
                assert(records_model(fresh@) =~= records_model(fpre).drop_first());
                assert(records_model(fresh@) =~= fresh0.skip(taken + 1));
            }
            let ghost ipre = self.items@;
            self.items.push_front(r);
            proof {
                assert(records_model(self.items@) =~= seq![r@] + records_model(ipre));
                assert(fresh0.take(taken + 1).reverse() =~= seq![fresh0[taken]] + fresh0.take(
                    taken,
                ).reverse());
                assert(records_model(self.items@) =~= fresh0.take(taken + 1).reverse() + q0);
                taken = taken + 1;
            }
        }
        proof {
            assert(fresh0.take(taken) =~= fresh0);
        }
        let n = self.items.len();
        let shed = if n > self.capacity {
            n - self.capacity
        } else {
            0
        };
        self.items.truncate(self.capacity);
        proof {
            if n > self.capacity {
                assert(records_model(self.items@) =~= (fresh0.reverse() + q0).take(
                    self.capacity as int,
                ));
            }
            assert(records_model(self.items@) =~= merged(fresh0, q0, old(self).cap()));
        }
        shed
    }

    /// Take the oldest buffered record: the next one owed a delivery
    /// attempt.
    pub fn pop_oldest(&mut self) -> (r: Option<TelemetryRecord>)
        ensures
            final(self).cap() == old(self).cap(),
            match r {
                Option::Some(rec) => {
                    &&& old(self)@.len() > 0
                    &&& rec@ == old(self)@.last()
                    &&& final(self)@ == old(self)@.drop_last()
                },
                Option::None => {
                    &&& old(self)@.len() == 0
                    &&& final(self)@ == old(self)@
                },
            },
    {
        let r = self.items.pop_back();
        proof {
            if r is Some {
                assert(self@ =~= old(self)@.drop_last());
            } else {
                assert(self@ =~= old(self)@);
            }
        }
        r
    }
}

/// Bounded memory: whatever arrives and whatever was buffered, an
/// insertion-and-truncation step leaves at most `cap` records.
pub proof fn lemma_merge_bounded(fresh: Seq<RecordKey>, q: Seq<RecordKey>, cap: nat)
    ensures
        merged(fresh, q, cap).len() <= cap,
{
}

} // verus!
