use vstd::prelude::*;

use crate::record::RecordKey;
use crate::record::TelemetryRecord;
use crate::record::record_eq;
use crate::record::records_model;

verus! {

/// The text of the destination write plan, prepared once per cycle.
pub open spec fn upsert_statement_text() -> Seq<char> {
    "INSERT INTO vehicle_stat (time, samsara_id, code, kind, json) VALUES ($1, $2, $3, $4, $5) ON CONFLICT (time, samsara_id, code, kind, json) DO NOTHING"@
}

/// The destination write plan: one upsert keyed on the full natural key.
/// A row already present under the key is left untouched, so writing the
/// same observation twice stores it once and both writes succeed.
pub fn upsert_statement() -> (s: String)
    ensures
        s@ == upsert_statement_text(),
{
    String::from_str(
        "INSERT INTO vehicle_stat (time, samsara_id, code, kind, json) VALUES ($1, $2, $3, $4, $5) ON CONFLICT (time, samsara_id, code, kind, json) DO NOTHING",
    )
}

/// What the destination reported for one record's write attempt.
#[derive(PartialEq, Eq, Structural, Clone, Copy, Debug)]
pub enum WriteOutcome {
    /// The statement completed; `rows` rows were newly inserted — 1 for a
    /// new observation, 0 for a natural key already present.
    Completed { rows: u64 },
    /// The write failed.
    Failed,
}

/// What becomes of a record after a write attempt.
#[derive(PartialEq, Eq, Structural, Clone, Copy, Debug)]
pub enum WriteDisposition {
    /// The record is durable — newly stored or already present under its
    /// natural key — and leaves the queue.
    Durable,
    /// The record is kept and retried next cycle.
    Retry,
}

/// The fate each outcome decides.
pub open spec fn write_disposition(o: WriteOutcome) -> WriteDisposition {
    match o {
        WriteOutcome::Completed { .. } => WriteDisposition::Durable,
        WriteOutcome::Failed => WriteDisposition::Retry,
    }
}

/// Decide a record's fate from what the destination reported: any
/// completed statement makes the record durable (a duplicate completes
/// with zero new rows and is a success, not a failure); only a failed
/// write sends the record to the retry set.
pub fn classify_write(outcome: &WriteOutcome) -> (d: WriteDisposition)
    ensures
        d == write_disposition(*outcome),
{
    match outcome {
        WriteOutcome::Completed { .. } => WriteDisposition::Durable,
        WriteOutcome::Failed => WriteDisposition::Retry,
    }
}

/// Whether a completed write's row count is worth reporting: one upsert is
/// expected to insert exactly one row, or none for a duplicate.
pub fn unexpected_row_count(outcome: &WriteOutcome) -> (b: bool)
    ensures
        b == match *outcome {
            WriteOutcome::Completed { rows } => rows != 1,
            WriteOutcome::Failed => false,
        },
{
    match outcome {
        WriteOutcome::Completed { rows } => *rows != 1,
        WriteOutcome::Failed => false,
    }
}

/// A set of rows after one upsert of `k`: unchanged when the key is
/// already stored, extended by one row otherwise.
pub open spec fn upserted(s: Seq<RecordKey>, k: RecordKey) -> Seq<RecordKey> {
    if s.contains(k) {
        s
    } else {
        s.push(k)
    }
}

/// In-memory model of the destination table: rows keyed by the natural
/// key, written through the set-or-ignore upsert primitive the destination
/// is expected to provide.  The library's idempotence statements are about
/// this model, and tests exercise the delivery path against it.
pub struct SinkStore {
    rows: Vec<TelemetryRecord>,
}

impl View for SinkStore {
    type V = Seq<RecordKey>;

    closed spec fn view(&self) -> Seq<RecordKey> {
        records_model(self.rows@)
    }
}

impl SinkStore {
    /// The stored rows hold pairwise distinct natural keys.
    pub open spec fn wf(&self) -> bool {
        self@.no_duplicates()
    }

    /// An empty store.
    pub fn new() -> (s: SinkStore)
        ensures
            s@ == Seq::<RecordKey>::empty(),
            s.wf(),
    {
        let s = SinkStore { rows: Vec::new() };
        proof {
            assert(s@ =~= Seq::<RecordKey>::empty());
        }
        s
    }

    /// Whether a row with this record's natural key is stored.
    pub fn contains_key(&self, rec: &TelemetryRecord) -> (b: bool)
        ensures
            b == self@.contains(rec@),
    {
        let mut i: usize = 0;
        while i < self.rows.len()
            invariant
                i <= self.rows.len(),
                forall|j: int| 0 <= j < i ==> self@[j] != rec@,
            decreases self.rows.len() - i,
        {
            if record_eq(&self.rows[i], rec) {
                proof {
                    assert(self@[i as int] == rec@);
                }
                return true;
            }
            i = i + 1;
        }
        proof {
            assert(!self@.contains(rec@)) by {
                if self@.contains(rec@) {
                    let j = choose|j: int| 0 <= j < self@.len() && self@[j] == rec@;
                    assert(self@[j] != rec@);
                }
            }
        }
        false
    }

    /// Write one record durably: a no-op when its natural key is already
    /// stored, a single new row otherwise.  Either way the write succeeds
    /// and the key is stored exactly once afterwards.  Returns whether a
    /// new row was inserted.
    pub fn upsert(&mut self, rec: TelemetryRecord) -> (inserted: bool)
        requires
            old(self).wf(),
        ensures
            final(self)@ == upserted(old(self)@, rec@),
            final(self).wf(),
            final(self)@.contains(rec@),
            inserted == !old(self)@.contains(rec@),
    {
        if self.contains_key(&rec) {
            false
        } else {
            let ghost rpre = self.rows@;
            self.rows.push(rec);
            proof {
                let s = records_model(rpre);
                let t = records_model(self.rows@);
                assert(t =~= s.push(rec@));
                assert(t.contains(rec@)) by {
                    assert(t[s.len() as int] == rec@);
                }
                assert(t.no_duplicates()) by {
                    assert forall|i: int, j: int|
                        0 <= i < t.len() && 0 <= j < t.len() && i != j implies t[i] != t[j] by {
                        if i < s.len() && j < s.len() {
                        } else if i == s.len() {
                            assert(s[j] != rec@) by {
                                if s[j] == rec@ {
                                    assert(s.contains(rec@));
                                }
                            }
                        } else {
                            assert(s[i] != rec@) by {
                                if s[i] == rec@ {
                                    assert(s.contains(rec@));
                                }
                            }
                        }
                    }
                }
            }
            true
        }
    }

    /// How many rows are stored.
    pub fn row_count(&self) -> (n: usize)
        ensures
            n == self@.len(),
    {
        self.rows.len()
    }

    /// The stored row at position `i`, in insertion order.
    pub fn row(&self, i: usize) -> (r: &TelemetryRecord)
        requires
            i < self@.len(),
        ensures
            r@ == self@[i as int],
    {
        &self.rows[i]
    }
}

/// Idempotent write: upserting a record's natural key twice leaves the
/// store exactly as one upsert leaves it — the key stored in exactly one
/// row (present, and never duplicated).
pub proof fn lemma_upsert_idempotent(s: Seq<RecordKey>, k: RecordKey)
    requires
        s.no_duplicates(),
    ensures
        upserted(upserted(s, k), k) == upserted(s, k),
        upserted(s, k).contains(k),
        upserted(s, k).no_duplicates(),
{
    if !s.contains(k) {
        let t = s.push(k);
        assert(t[s.len() as int] == k);
        assert(t.contains(k));
        assert(t.no_duplicates()) by {
            assert forall|i: int, j: int|
                0 <= i < t.len() && 0 <= j < t.len() && i != j implies t[i] != t[j] by {
                if i < s.len() && j < s.len() {
                } else if i == s.len() {
                    assert(s[j] != k) by {
                        if s[j] == k {
                            assert(s.contains(k));
                        }
                    }
                } else {
                    assert(s[i] != k) by {
                        if s[i] == k {
                            assert(s.contains(k));
                        }
                    }
                }
            }
        }
    }
}

} // verus!
