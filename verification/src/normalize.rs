use vstd::prelude::*;

use crate::json::JsonValue;
use crate::json::pruned_object_string;
use crate::json::pruned_object_text;
use crate::record::RecordKey;
use crate::record::TelemetryRecord;
use crate::record::records_model;
use crate::time::parse_instant_of;
use crate::time::parse_rfc3339_micros;

verus! {

/// One vehicle's full telemetry response for a fetch cycle: a mapping from
/// member name to value.  Scalar members (`name`, `id`) are metadata; each
/// object-valued member is one stat kind carrying its own timestamp.
pub struct Snapshot {
    pub entries: Vec<(String, JsonValue)>,
}

/// Severity of a reported normalization event.
#[derive(PartialEq, Eq, Structural, Clone, Copy, Debug)]
pub enum ReportLevel {
    /// Expected, recoverable: worth recording, not a fault.
    Info,
    /// A malformed input that was recovered from locally.
    Error,
}

/// A reportable event from normalization.  Events are returned, never
/// logged here: the caller owns the diagnostics sink.
pub enum NormalizeEvent {
    /// The snapshot has no string-valued `name` member; the whole snapshot
    /// yields no records.
    MissingCode,
    /// A stat object's `time` member is a string that does not parse as an
    /// RFC 3339 instant; the record was kept with the processing instant
    /// substituted.
    TimeUnparsable { kind: String, raw: String },
    /// A stat object has no string-valued `time` member; the processing
    /// instant was substituted.
    TimeMissing { kind: String },
}

/// Mathematical model of a normalization event.
#[verifier::ext_equal]
pub enum EventModel {
    MissingCode,
    TimeUnparsable { kind: Seq<char>, raw: Seq<char> },
    TimeMissing { kind: Seq<char> },
}

impl View for NormalizeEvent {
    type V = EventModel;

    open spec fn view(&self) -> EventModel {
        match self {
            NormalizeEvent::MissingCode => EventModel::MissingCode,
            NormalizeEvent::TimeUnparsable { kind, raw } => EventModel::TimeUnparsable {
                kind: kind@,
                raw: raw@,
            },
            NormalizeEvent::TimeMissing { kind } => EventModel::TimeMissing { kind: kind@ },
        }
    }
}

/// The severity each event is reported at.
pub open spec fn event_level(e: EventModel) -> ReportLevel {
    match e {
        EventModel::MissingCode => ReportLevel::Error,
        EventModel::TimeUnparsable { .. } => ReportLevel::Error,
        EventModel::TimeMissing { .. } => ReportLevel::Info,
    }
}

impl NormalizeEvent {
    /// A missing timestamp is expected telemetry shape (informational); a
    /// malformed one and a missing vehicle code are input errors.
    pub fn level(&self) -> (l: ReportLevel)
        ensures
            l == event_level(self@),
    {
        match self {
            NormalizeEvent::MissingCode => ReportLevel::Error,
            NormalizeEvent::TimeUnparsable { .. } => ReportLevel::Error,
            NormalizeEvent::TimeMissing { .. } => ReportLevel::Info,
        }
    }
}

/// The models of a sequence of events, in order.
pub open spec fn events_model(es: Seq<NormalizeEvent>) -> Seq<EventModel> {
    es.map_values(|e: NormalizeEvent| e@)
}

/// The value of the first member of `entries` named `key`, if any.
pub open spec fn entry_lookup(entries: Seq<(String, JsonValue)>, key: Seq<char>) -> Option<
    JsonValue,
>
    decreases entries.len(),
{
    if entries.len() == 0 {
        Option::None
    } else if entries[0].0@ == key {
        Option::Some(entries[0].1)
    } else {
        entry_lookup(entries.drop_first(), key)
    }
}

/// The snapshot's vehicle code: its string-valued `name` member.
pub open spec fn snapshot_code(entries: Seq<(String, JsonValue)>) -> Option<Seq<char>> {
    match entry_lookup(entries, "name"@) {
        Option::Some(JsonValue::String(s)) => Option::Some(s@),
        _ => Option::None,
    }
}

/// The snapshot's source-assigned identifier: its string-valued `id`
/// member, absent when the source omits it.
pub open spec fn snapshot_vehicle_id(entries: Seq<(String, JsonValue)>) -> Option<Seq<char>> {
    match entry_lookup(entries, "id"@) {
        Option::Some(JsonValue::String(s)) => Option::Some(s@),
        _ => Option::None,
    }
}

/// The record extracted from one stat object: its members minus `time`
/// serialized as the payload, under the given observation instant.
pub open spec fn entry_record(
    code: Seq<char>,
    vehicle_id: Option<Seq<char>>,
    kind: Seq<char>,
    obj: Seq<(String, JsonValue)>,
    t: i64,
) -> RecordKey {
    RecordKey {
        timestamp_micros: t,
        vehicle_id: vehicle_id,
        code: code,
        kind: kind,
        payload: pruned_object_text(obj, "time"@),
    }
}

/// What one snapshot member contributes: nothing for a scalar or array
/// member; for an object member, one record, with the processing instant
/// `now` substituted (and an event reported) where the `time` member is
/// absent, not a string, or unparsable.
pub open spec fn normalize_entry(
    code: Seq<char>,
    vehicle_id: Option<Seq<char>>,
    e: (String, JsonValue),
    now: i64,
) -> (Seq<RecordKey>, Seq<EventModel>) {
    match e.1 {
        JsonValue::Object(obj) => match entry_lookup(obj@, "time"@) {
            Option::Some(JsonValue::String(ts)) => match parse_instant_of(ts@) {
                Option::Some(t) => (
                    seq![entry_record(code, vehicle_id, e.0@, obj@, t)],
                    Seq::empty(),
                ),
                Option::None => (
                    seq![entry_record(code, vehicle_id, e.0@, obj@, now)],
                    seq![EventModel::TimeUnparsable { kind: e.0@, raw: ts@ }],
                ),
            },
            _ => (
                seq![entry_record(code, vehicle_id, e.0@, obj@, now)],
                seq![EventModel::TimeMissing { kind: e.0@ }],
            ),
        },
        _ => (Seq::empty(), Seq::empty()),
    }
}

/// The concatenated contributions of every snapshot member, in order.
pub open spec fn normalize_entries(
    code: Seq<char>,
    vehicle_id: Option<Seq<char>>,
    entries: Seq<(String, JsonValue)>,
    now: i64,
) -> (Seq<RecordKey>, Seq<EventModel>)
    decreases entries.len(),
{
    if entries.len() == 0 {
        (Seq::empty(), Seq::empty())
    } else {
        let prev = normalize_entries(code, vehicle_id, entries.drop_last(), now);
        let last = normalize_entry(code, vehicle_id, entries.last(), now);
        (prev.0 + last.0, prev.1 + last.1)
    }
}

/// What one snapshot normalizes to: zero records and a reported failure
/// when the vehicle code is missing, otherwise one record per object-valued
/// member.
pub open spec fn normalize_snapshot_model(entries: Seq<(String, JsonValue)>, now: i64) -> (
    Seq<RecordKey>,
    Seq<EventModel>,
) {
    match snapshot_code(entries) {
        Option::None => (Seq::empty(), seq![EventModel::MissingCode]),
        Option::Some(code) => normalize_entries(
            code,
            snapshot_vehicle_id(entries),
            entries,
            now,
        ),
    }
}

/// What a batch normalizes to: each snapshot's contribution in order, each
/// snapshot normalized independently of its siblings.
pub open spec fn normalize_batch_model(snaps: Seq<Snapshot>, now: i64) -> (
    Seq<RecordKey>,
    Seq<EventModel>,
)
    decreases snaps.len(),
{
    if snaps.len() == 0 {
        (Seq::empty(), Seq::empty())
    } else {
        let prev = normalize_batch_model(snaps.drop_last(), now);
        let last = normalize_snapshot_model(snaps.last().entries@, now);
        (prev.0 + last.0, prev.1 + last.1)
    }
}

/// The value of the first member of `entries` named `key`, if any.
fn entry_get<'a>(entries: &'a Vec<(String, JsonValue)>, key: &String) -> (r: Option<
    &'a JsonValue,
>)
    ensures
        match r {
            Option::Some(v) => entry_lookup(entries@, key@) == Option::Some(*v),
            Option::None => entry_lookup(entries@, key@) is None,
        },
{
    let mut i: usize = 0;
    proof {
        assert(entries@.skip(0int) =~= entries@);
    }
    while i < entries.len()
        invariant
            i <= entries.len(),
            entry_lookup(entries@, key@) == entry_lookup(entries@.skip(i as int), key@),
        decreases entries.len() - i,
    {
        if entries[i].0 == *key {
            proof {
                assert(entries@.skip(i as int)[0] == entries@[i as int]);
            }
            return Some(&entries[i].1);
        }
        proof {
            assert(entries@.skip(i as int).drop_first() =~= entries@.skip(i + 1 as int));
        }
        i = i + 1;
    }
    proof {
        assert(entries@.skip(entries@.len() as int).len() == 0);
    }
    None
}

/// A copy of an optional string.
fn clone_opt_string(v: &Option<String>) -> (r: Option<String>)
    ensures
        r == *v,
{
    match v {
        Some(s) => Some(s.clone()),
        None => None,
    }
}

/// Normalize one snapshot at processing instant `now`: flatten each
/// object-valued member into a record and report every recovered fault.
/// The snapshot itself is only read; the records are new, independent
/// values.
#[verifier::loop_isolation(false)]
pub fn normalize_snapshot(snap: &Snapshot, now: i64) -> (r: (
    Vec<TelemetryRecord>,
    Vec<NormalizeEvent>,
))
    ensures
        records_model(r.0@) == normalize_snapshot_model(snap.entries@, now).0,
        events_model(r.1@) == normalize_snapshot_model(snap.entries@, now).1,
{
    let mut records: Vec<TelemetryRecord> = Vec::new();
    let mut events: Vec<NormalizeEvent> = Vec::new();
    let name_key = String::from_str("name");
    let id_key = String::from_str("id");
    let time_key = String::from_str("time");
    let code: String = match entry_get(&snap.entries, &name_key) {
        Some(JsonValue::String(s)) => s.clone(),
        _ => {
            events.push(NormalizeEvent::MissingCode);
            proof {
                assert(records_model(records@) =~= normalize_snapshot_model(
                    snap.entries@,
                    now,
                ).0);
                assert(events_model(events@) =~= normalize_snapshot_model(snap.entries@, now).1);
            }
            return (records, events);
        },
    };
    let vehicle_id: Option<String> = match entry_get(&snap.entries, &id_key) {
        Some(JsonValue::String(s)) => Some(s.clone()),
        _ => None,
    };
    proof {
        assert(snapshot_code(snap.entries@) == Option::Some(code@));
        assert(snapshot_vehicle_id(snap.entries@) == match vehicle_id {
            Option::Some(s) => Option::Some(s@),
            Option::None => Option::<Seq<char>>::None,
        });
    }
    let ghost code_m = code@;
    let ghost vid_m = snapshot_vehicle_id(snap.entries@);
    let mut i: usize = 0;
    proof {
        assert(snap.entries@.take(0int) =~= Seq::<(String, JsonValue)>::empty());
    }
    while i < snap.entries.len()
        invariant
            i <= snap.entries.len(),
            records_model(records@) == normalize_entries(
                code_m,
                vid_m,
                snap.entries@.take(i as int),
                now,
            ).0,
            events_model(events@) == normalize_entries(
                code_m,
                vid_m,
                snap.entries@.take(i as int),
                now,
            ).1,
        decreases snap.entries.len() - i,
    {
        let e = &snap.entries[i];
        match &e.1 {
            JsonValue::Object(obj) => {
                let t: i64;
                match entry_get(obj, &time_key) {
                    Some(JsonValue::String(ts)) => {
                        match parse_rfc3339_micros(ts.as_str()) {
                            Some(parsed) => {
                                t = parsed;
                            },
                            None => {
                                t = now;
                                events.push(
                                    NormalizeEvent::TimeUnparsable {
                                        kind: e.0.clone(),
                                        raw: ts.clone(),
                                    },
                                );
                            },
                        }
                    },
                    _ => {
                        t = now;
                        events.push(NormalizeEvent::TimeMissing { kind: e.0.clone() });
                    },
                }
                let payload = pruned_object_string(obj, &time_key);
                records.push(
                    TelemetryRecord {
                        timestamp_micros: t,
                        vehicle_id: clone_opt_string(&vehicle_id),
                        code: code.clone(),
                        kind: e.0.clone(),
                        payload,
                    },
                );
            },
            _ => {},
        }
        proof {
            let pre = snap.entries@.take(i as int);
            let post = snap.entries@.take(i + 1 as int);
            assert(post.drop_last() =~= pre);
            assert(post.last() == snap.entries@[i as int]);
            let added = normalize_entry(code_m, vid_m, snap.entries@[i as int], now);
            assert(records_model(records@) =~= normalize_entries(code_m, vid_m, pre, now).0
                + added.0);
            assert(events_model(events@) =~= normalize_entries(code_m, vid_m, pre, now).1
                + added.1);
        }
        i = i + 1;
    }
    proof {
        assert(snap.entries@.take(snap.entries@.len() as int) =~= snap.entries@);
    }
    (records, events)
}

/// Normalize a batch of snapshots at processing instant `now`.  Snapshots
/// are processed independently: one snapshot's failure (a missing code)
/// never disturbs its siblings' records.
#[verifier::loop_isolation(false)]
pub fn normalize_batch(snaps: &Vec<Snapshot>, now: i64) -> (r: (
    Vec<TelemetryRecord>,
    Vec<NormalizeEvent>,
))
    ensures
        records_model(r.0@) == normalize_batch_model(snaps@, now).0,
        events_model(r.1@) == normalize_batch_model(snaps@, now).1,
{
    let mut records: Vec<TelemetryRecord> = Vec::new();
    let mut events: Vec<NormalizeEvent> = Vec::new();
    let mut i: usize = 0;
    proof {
        assert(snaps@.take(0int) =~= Seq::<Snapshot>::empty());
    }
    while i < snaps.len()
        invariant
            i <= snaps.len(),
            records_model(records@) == normalize_batch_model(snaps@.take(i as int), now).0,
            events_model(events@) == normalize_batch_model(snaps@.take(i as int), now).1,
        decreases snaps.len() - i,
    {
        let (mut rs, mut es) = normalize_snapshot(&snaps[i], now);
        let ghost rs0 = rs@;
        let ghost es0 = es@;
        records.append(&mut rs);
        events.append(&mut es);
        proof {
            let pre = snaps@.take(i as int);
            let post = snaps@.take(i + 1 as int);
            assert(post.drop_last() =~= pre);
            assert(post.last() == snaps@[i as int]);
            assert(records_model(records@) =~= normalize_batch_model(pre, now).0 + records_model(
                rs0,
            ));
            assert(events_model(events@) =~= normalize_batch_model(pre, now).1 + events_model(
                es0,
            ));
        }
        i = i + 1;
    }
    proof {
        assert(snaps@.take(snaps@.len() as int) =~= snaps@);
    }
    (records, events)
}

/// Snapshot independence: in a batch of a code-less snapshot and a
/// well-formed one, the records are exactly the well-formed snapshot's, and
/// the code-less one contributes exactly its reported failure.
pub proof fn lemma_snapshot_independence(bad: Snapshot, good: Snapshot, now: i64)
    requires
        snapshot_code(bad.entries@) is None,
        snapshot_code(good.entries@) is Some,
    ensures
        normalize_batch_model(seq![bad, good], now).0 == normalize_snapshot_model(
            good.entries@,
            now,
        ).0,
        normalize_batch_model(seq![bad, good], now).1 == seq![EventModel::MissingCode]
            + normalize_snapshot_model(good.entries@, now).1,
{
    let nothing = Seq::<Snapshot>::empty();
    let single = seq![bad];
    let pair = seq![bad, good];
    assert(single.drop_last() =~= nothing);
    assert(single.last() == bad);
    assert(pair.drop_last() =~= single);
    assert(pair.last() == good);
    let snap_bad = normalize_snapshot_model(bad.entries@, now);
    let snap_good = normalize_snapshot_model(good.entries@, now);
    assert(snap_bad.0 == Seq::<RecordKey>::empty());
    assert(snap_bad.1 == seq![EventModel::MissingCode]);
    assert(normalize_batch_model(nothing, now).0.len() == 0);
    assert(normalize_batch_model(single, now).0 =~= Seq::<RecordKey>::empty());
    assert(normalize_batch_model(single, now).1 =~= seq![EventModel::MissingCode]);
    assert(normalize_batch_model(pair, now).0 =~= snap_good.0);
    assert(normalize_batch_model(pair, now).1 =~= seq![EventModel::MissingCode] + snap_good.1);
}

/// Timestamp substitution is not fatal: a stat object whose `time` member
/// is a string that does not parse still yields its record, carrying the
/// processing instant, plus exactly one parse-error event.
pub proof fn lemma_time_substitution(
    code: Seq<char>,
    vehicle_id: Option<Seq<char>>,
    e: (String, JsonValue),
    ts: String,
    now: i64,
)
    requires
        e.1 is Object,
        entry_lookup(e.1->Object_0@, "time"@) == Option::Some(JsonValue::String(ts)),
        parse_instant_of(ts@) is None,
    ensures
        normalize_entry(code, vehicle_id, e, now).0 == seq![
            entry_record(code, vehicle_id, e.0@, e.1->Object_0@, now),
        ],
        normalize_entry(code, vehicle_id, e, now).1 == seq![
            EventModel::TimeUnparsable { kind: e.0@, raw: ts@ },
        ],
{
}

} // verus!
