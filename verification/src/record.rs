use vstd::prelude::*;

verus! {

/// One flattened telemetry observation: the unit of persistence.
///
/// The destination stores records under the natural key formed by all five
/// fields; two records with the same key are the same observation.
pub struct TelemetryRecord {
    /// Observation instant: non-leap microseconds since the Unix epoch, UTC.
    pub timestamp_micros: i64,
    /// Identifier assigned by the upstream source; `None` when the source
    /// omits it.
    pub vehicle_id: Option<String>,
    /// Human-assigned vehicle label.  A snapshot without one yields no
    /// records at all.
    pub code: String,
    /// Stat category: the name of the nested snapshot object this record was
    /// extracted from.
    pub kind: String,
    /// All fields of the nested object except its timestamp, serialized as
    /// JSON text.
    pub payload: String,
}

/// Mathematical model of a record: exactly the natural key the destination
/// deduplicates on.
#[verifier::ext_equal]
pub struct RecordKey {
    pub timestamp_micros: i64,
    pub vehicle_id: Option<Seq<char>>,
    pub code: Seq<char>,
    pub kind: Seq<char>,
    pub payload: Seq<char>,
}

impl View for TelemetryRecord {
    type V = RecordKey;

    open spec fn view(&self) -> RecordKey {
        RecordKey {
            timestamp_micros: self.timestamp_micros,
            vehicle_id: match self.vehicle_id {
                Option::Some(s) => Option::Some(s@),
                Option::None => Option::None,
            },
            code: self.code@,
            kind: self.kind@,
            payload: self.payload@,
        }
    }
}

/// The natural keys of a sequence of records, in order.
pub open spec fn records_model(rs: Seq<TelemetryRecord>) -> Seq<RecordKey> {
    rs.map_values(|r: TelemetryRecord| r@)
}

/// Whether two records are the same observation, i.e. share the natural key.
pub fn record_eq(a: &TelemetryRecord, b: &TelemetryRecord) -> (r: bool)
    ensures
        r == (a@ == b@),
{
    let vid_eq = match (&a.vehicle_id, &b.vehicle_id) {
        (Some(x), Some(y)) => *x == *y,
        (None, None) => true,
        _ => false,
    };
    let r = a.timestamp_micros == b.timestamp_micros && vid_eq && a.code == b.code
        && a.kind == b.kind && a.payload == b.payload;
    proof {
        if r {
            assert(a@ =~= b@);
        }
    }
    r
}

} // verus!
