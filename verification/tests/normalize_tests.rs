use sammy::json::JsonValue;
use sammy::normalize::NormalizeEvent;
use sammy::normalize::ReportLevel;
use sammy::normalize::Snapshot;
use sammy::normalize::normalize_batch;
use sammy::normalize::normalize_snapshot;

fn s(x: &str) -> String {
    x.to_string()
}

fn micros_of(rfc3339: &str) -> i64 {
    rfc3339.parse::<chrono::DateTime<chrono::Utc>>().unwrap().timestamp_micros()
}

fn sample_snapshot() -> Snapshot {
    Snapshot {
        entries: vec![
            (s("name"), JsonValue::String(s("717"))),
            (s("id"), JsonValue::String(s("212014919004270"))),
            (
                s("gps"),
                JsonValue::Object(vec![
                    (s("time"), JsonValue::String(s("2021-07-14T02:13:53Z"))),
                    (s("latitude"), JsonValue::Number(s("53.7"))),
                    (s("longitude"), JsonValue::Number(s("-113.18"))),
                ]),
            ),
            (
                s("engineStates"),
                JsonValue::Object(vec![
                    (s("time"), JsonValue::String(s("2021-07-13T20:10:23Z"))),
                    (s("value"), JsonValue::String(s("Off"))),
                ]),
            ),
        ],
    }
}

#[test]
fn sample_snapshot_yields_two_records() {
    let now = 99i64;
    let (records, events) = normalize_snapshot(&sample_snapshot(), now);
    assert_eq!(events.len(), 0);
    assert_eq!(records.len(), 2);

    let gps = &records[0];
    assert_eq!(gps.timestamp_micros, micros_of("2021-07-14T02:13:53Z"));
    assert_eq!(gps.timestamp_micros, 1_626_228_833_000_000);
    assert_eq!(gps.vehicle_id.as_deref(), Some("212014919004270"));
    assert_eq!(gps.code, "717");
    assert_eq!(gps.kind, "gps");
    assert_eq!(gps.payload, "{\"latitude\":53.7,\"longitude\":-113.18}");

    let engine = &records[1];
    assert_eq!(engine.timestamp_micros, micros_of("2021-07-13T20:10:23Z"));
    assert_eq!(engine.timestamp_micros, 1_626_207_023_000_000);
    assert_eq!(engine.vehicle_id.as_deref(), Some("212014919004270"));
    assert_eq!(engine.code, "717");
    assert_eq!(engine.kind, "engineStates");
    assert_eq!(engine.payload, "{\"value\":\"Off\"}");
}

#[test]
fn unparsable_time_substitutes_now_and_reports() {
    let now = chrono::Utc::now().timestamp_micros();
    let snap = Snapshot {
        entries: vec![
            (s("name"), JsonValue::String(s("717"))),
            (
                s("gps"),
                JsonValue::Object(vec![
                    (s("time"), JsonValue::String(s("half past noon"))),
                    (s("latitude"), JsonValue::Number(s("1"))),
                ]),
            ),
        ],
    };
    let (records, events) = normalize_snapshot(&snap, now);
    assert_eq!(records.len(), 1);
    assert_eq!(records[0].timestamp_micros, now);
    assert_eq!(records[0].payload, "{\"latitude\":1}");
    assert_eq!(events.len(), 1);
    match &events[0] {
        NormalizeEvent::TimeUnparsable { kind, raw } => {
            assert_eq!(kind, "gps");
            assert_eq!(raw, "half past noon");
        },
        other => panic!("expected a parse-error event, got {:?}", other.level()),
    }
    assert_eq!(events[0].level(), ReportLevel::Error);
}

#[test]
fn missing_time_substitutes_now_and_reports_info() {
    let now = 1234i64;
    let snap = Snapshot {
        entries: vec![
            (s("name"), JsonValue::String(s("717"))),
            (s("odometer"), JsonValue::Object(vec![(s("value"), JsonValue::Number(s("5")))])),
        ],
    };
    let (records, events) = normalize_snapshot(&snap, now);
    assert_eq!(records.len(), 1);
    assert_eq!(records[0].timestamp_micros, now);
    assert_eq!(records[0].kind, "odometer");
    assert_eq!(events.len(), 1);
    assert!(matches!(&events[0], NormalizeEvent::TimeMissing { kind } if kind == "odometer"));
    assert_eq!(events[0].level(), ReportLevel::Info);
}

#[test]
fn missing_code_drops_snapshot_and_reports() {
    let now = 0i64;
    let snap = Snapshot {
        entries: vec![
            (s("id"), JsonValue::String(s("x"))),
            (
                s("gps"),
                JsonValue::Object(vec![(s("time"), JsonValue::String(s("2021-07-14T02:13:53Z")))]),
            ),
        ],
    };
    let (records, events) = normalize_snapshot(&snap, now);
    assert_eq!(records.len(), 0);
    assert_eq!(events.len(), 1);
    assert!(matches!(events[0], NormalizeEvent::MissingCode));
    assert_eq!(events[0].level(), ReportLevel::Error);
}

#[test]
fn batch_normalizes_snapshots_independently() {
    let now = 7i64;
    let bad = Snapshot {
        entries: vec![(
            s("gps"),
            JsonValue::Object(vec![(s("time"), JsonValue::String(s("2021-07-14T02:13:53Z")))]),
        )],
    };
    let good = sample_snapshot();
    let (records, events) = normalize_batch(&vec![bad, good], now);
    assert_eq!(records.len(), 2);
    assert_eq!(records[0].code, "717");
    assert_eq!(records[1].code, "717");
    assert_eq!(events.len(), 1);
    assert!(matches!(events[0], NormalizeEvent::MissingCode));
}

#[test]
fn scalar_and_array_members_yield_no_records() {
    let now = 0i64;
    let snap = Snapshot {
        entries: vec![
            (s("name"), JsonValue::String(s("v1"))),
            (s("note"), JsonValue::String(s("scalar"))),
            (s("count"), JsonValue::Number(s("3"))),
            (s("flags"), JsonValue::Array(vec![JsonValue::Bool(true)])),
            (s("absent"), JsonValue::Null),
        ],
    };
    let (records, events) = normalize_snapshot(&snap, now);
    assert_eq!(records.len(), 0);
    assert_eq!(events.len(), 0);
}

#[test]
fn missing_id_leaves_vehicle_id_absent() {
    let now = 0i64;
    let snap = Snapshot {
        entries: vec![
            (s("name"), JsonValue::String(s("v2"))),
            (
                s("gps"),
                JsonValue::Object(vec![(s("time"), JsonValue::String(s("2021-07-14T02:13:53Z")))]),
            ),
        ],
    };
    let (records, _) = normalize_snapshot(&snap, now);
    assert_eq!(records.len(), 1);
    assert_eq!(records[0].vehicle_id, None);
    assert_eq!(records[0].payload, "{}");
}

#[test]
fn non_string_time_counts_as_missing() {
    let now = 5i64;
    let snap = Snapshot {
        entries: vec![
            (s("name"), JsonValue::String(s("v3"))),
            (s("gps"), JsonValue::Object(vec![(s("time"), JsonValue::Number(s("1626228833")))])),
        ],
    };
    let (records, events) = normalize_snapshot(&snap, now);
    assert_eq!(records.len(), 1);
    assert_eq!(records[0].timestamp_micros, now);
    assert!(matches!(&events[0], NormalizeEvent::TimeMissing { kind } if kind == "gps"));
}
