use vstd::prelude::*;

use crate::queue::BoundedQueue;
use crate::queue::merged;
use crate::record::RecordKey;
use crate::record::TelemetryRecord;
use crate::record::records_model;

verus! {

/// One delivery cycle over the pending queue.
///
/// A cycle begins by merging freshly normalized records into the queue and
/// enforcing the bound.  The caller then connects to the destination and
/// prepares the write plan; if either fails, [`DeliveryCycle::abort`] hands
/// the queue back untouched.  Otherwise the caller drains the queue with
/// [`DeliveryCycle::next_pending`] (oldest record first), writes each
/// record, and reports each failed write with
/// [`DeliveryCycle::record_failed`].  [`DeliveryCycle::finish`] merges the
/// failed records back in at the insertion end, so they are retried next
/// cycle after anything fresher, and enforces the bound once more.
///
/// The cycle owns the queue for its whole duration: no one else reads or
/// writes it until `abort` or `finish` gives it back.
pub struct DeliveryCycle {
    queue: BoundedQueue,
    retries: Vec<TelemetryRecord>,
}

impl DeliveryCycle {
    /// The natural keys still buffered, front (newest) first.
    pub closed spec fn pending(&self) -> Seq<RecordKey> {
        self.queue@
    }

    /// The natural keys of the records whose writes failed this cycle, in
    /// failure order.
    pub closed spec fn retried(&self) -> Seq<RecordKey> {
        records_model(self.retries@)
    }

    /// The queue's capacity, unchanged through the cycle.
    pub closed spec fn cap(&self) -> nat {
        self.queue.cap()
    }

    /// Start a cycle: merge the fresh records into the queue (newest
    /// foremost) and enforce the capacity bound.  Returns the cycle and how
    /// many of the oldest buffered records the bound shed.
    pub fn begin(queue: BoundedQueue, fresh: Vec<TelemetryRecord>) -> (r: (DeliveryCycle, usize))
        ensures
            r.0.pending() == merged(records_model(fresh@), queue@, queue.cap()),
            r.0.retried() == Seq::<RecordKey>::empty(),
            r.0.cap() == queue.cap(),
            r.1 == if records_model(fresh@).len() + queue@.len() > queue.cap() {
                records_model(fresh@).len() + queue@.len() - queue.cap()
            } else {
                0int
            },
    {
        let mut queue = queue;
        let shed = queue.merge_front(fresh);
        let cycle = DeliveryCycle { queue, retries: Vec::new() };
        proof {
            assert(cycle.retried() =~= Seq::<RecordKey>::empty());
        }
        (cycle, shed)
    }

    /// How many records still await a delivery attempt.
    pub fn pending_len(&self) -> (n: usize)
        ensures
            n == self.pending().len(),
    {
        self.queue.len()
    }

    /// How many failed writes are waiting to be requeued.
    pub fn retried_len(&self) -> (n: usize)
        ensures
            n == self.retried().len(),
    {
        self.retries.len()
    }

    /// Stop the cycle before any record was attempted — the destination
    /// connection or the write plan could not be established.  The queue
    /// comes back exactly as the cycle has held it.
    pub fn abort(self) -> (q: BoundedQueue)
        requires
            self.retried().len() == 0,
        ensures
            q@ == self.pending(),
            q.cap() == self.cap(),
    {
        self.queue
    }

    /// The oldest buffered record: the next one owed a delivery attempt.
    pub fn next_pending(&mut self) -> (r: Option<TelemetryRecord>)
        ensures
            final(self).cap() == old(self).cap(),
            final(self).retried() == old(self).retried(),
            match r {
                Option::Some(rec) => {
                    &&& old(self).pending().len() > 0
                    &&& rec@ == old(self).pending().last()
                    &&& final(self).pending() == old(self).pending().drop_last()
                },
                Option::None => {
                    &&& old(self).pending().len() == 0
                    &&& final(self).pending() == old(self).pending()
                },
            },
    {
        self.queue.pop_oldest()
    }

    /// Keep a record whose write failed for the next cycle.  The caller
    /// reports the failure; the record is requeued at `finish`.
    pub fn record_failed(&mut self, rec: TelemetryRecord)
        ensures
            final(self).pending() == old(self).pending(),
            final(self).cap() == old(self).cap(),
            final(self).retried() == old(self).retried().push(rec@),
    {
        let ghost rpre = self.retries@;
        self.retries.push(rec);
        proof {
            assert(records_model(self.retries@) =~= records_model(rpre).push(rec@));
        }
    }

    /// End the cycle: merge the failed records back into the queue at the
    /// insertion end — they are retried next cycle, after anything fresher
    /// that arrives — and enforce the capacity bound.  Whenever what
    /// remained buffered and what failed fit within capacity (after a full
    /// drain they always do: both came out of the bounded queue), every
    /// failed record stands in the returned queue.
    pub fn finish(self) -> (r: (BoundedQueue, usize))
        ensures
            r.0@ == merged(self.retried(), self.pending(), self.cap()),
            r.0.cap() == self.cap(),
            r.1 == if self.retried().len() + self.pending().len() > self.cap() {
                self.retried().len() + self.pending().len() - self.cap()
            } else {
                0int
            },
            self.retried().len() + self.pending().len() <= self.cap() ==> forall|i: int|
                0 <= i < self.retried().len() ==> r.0@.contains(#[trigger] self.retried()[i]),
    {
        let DeliveryCycle { mut queue, retries } = self;
        let shed = queue.merge_front(retries);
        proof {
            if self.retried().len() + self.pending().len() <= self.cap() {
                assert forall|i: int| 0 <= i < self.retried().len() implies queue@.contains(
                    #[trigger] self.retried()[i],
                ) by {
                    lemma_no_loss_on_failure(self.retried(), self.pending(), self.cap(), i);
                }
            }
        }
        (queue, shed)
    }
}

/// No loss on transient failure: when the records left in the queue and the
/// failed ones together fit within capacity, every failed record is present
/// in the queue that the cycle hands back.
pub proof fn lemma_no_loss_on_failure(retries: Seq<RecordKey>, q: Seq<RecordKey>, cap: nat, i: int)
    requires
        retries.len() + q.len() <= cap,
        0 <= i < retries.len(),
    ensures
        merged(retries, q, cap).contains(retries[i]),
{
    let whole = retries.reverse() + q;
    assert(whole[retries.len() - 1 - i] == retries[i]);
    assert(merged(retries, q, cap) == whole);
}

} // verus!
