use sammy::coordinator::DeliveryCycle;
use sammy::queue::BoundedQueue;
use sammy::record::TelemetryRecord;
use sammy::record::record_eq;

fn rec(kind: &str) -> TelemetryRecord {
    TelemetryRecord {
        timestamp_micros: 7,
        vehicle_id: Some("id1".to_string()),
        code: "717".to_string(),
        kind: kind.to_string(),
        payload: "{\"value\":\"Off\"}".to_string(),
    }
}

#[test]
fn connection_failure_preserves_queue() {
    let mut q = BoundedQueue::new(5);
    q.merge_front(vec![rec("A"), rec("B"), rec("C")]);
    let before: Vec<String> = (0..q.len()).map(|i| q.get(i).kind.clone()).collect();

    // The destination connection failed: the cycle stops before any write.
    let (cycle, shed) = DeliveryCycle::begin(q, vec![]);
    assert_eq!(shed, 0);
    let q = cycle.abort();

    let after: Vec<String> = (0..q.len()).map(|i| q.get(i).kind.clone()).collect();
    assert_eq!(before, after);
    assert_eq!(q.capacity(), 5);
}

#[test]
fn failed_record_is_back_in_the_queue_after_the_cycle() {
    let mut q = BoundedQueue::new(5);
    q.merge_front(vec![rec("A"), rec("B")]);

    let (mut cycle, _) = DeliveryCycle::begin(q, vec![]);
    // Drain: "A" (the oldest) fails, "B" is written durably.
    let first = cycle.next_pending().unwrap();
    assert_eq!(first.kind, "A");
    cycle.record_failed(first);
    let second = cycle.next_pending().unwrap();
    assert_eq!(second.kind, "B");
    assert!(cycle.next_pending().is_none());
    assert_eq!(cycle.retried_len(), 1);

    let (q, shed) = cycle.finish();
    assert_eq!(shed, 0);
    assert_eq!(q.len(), 1);
    assert!(record_eq(q.get(0), &rec("A")));
}

#[test]
fn retries_are_attempted_after_fresher_records_next_cycle() {
    let mut q = BoundedQueue::new(5);
    q.merge_front(vec![rec("A"), rec("B")]);

    // Cycle one: every write fails.
    let (mut cycle, _) = DeliveryCycle::begin(q, vec![]);
    while let Some(r) = cycle.next_pending() {
        cycle.record_failed(r);
    }
    let (q, _) = cycle.finish();

    // Cycle two: a fresh record arrives; the old failures still drain first.
    let (mut cycle, _) = DeliveryCycle::begin(q, vec![rec("C")]);
    assert_eq!(cycle.pending_len(), 3);
    assert_eq!(cycle.next_pending().unwrap().kind, "A");
    assert_eq!(cycle.next_pending().unwrap().kind, "B");
    assert_eq!(cycle.next_pending().unwrap().kind, "C");
    let (q, _) = cycle.finish();
    assert!(q.is_empty());
}

#[test]
fn begin_merges_fresh_records_and_enforces_the_bound() {
    let q = BoundedQueue::new(2);
    let (cycle, shed) = DeliveryCycle::begin(q, vec![rec("A"), rec("B"), rec("C")]);
    assert_eq!(shed, 1);
    assert_eq!(cycle.pending_len(), 2);
    assert_eq!(cycle.retried_len(), 0);
    let q = cycle.abort();
    assert_eq!(q.get(0).kind, "C");
    assert_eq!(q.get(1).kind, "B");
}
