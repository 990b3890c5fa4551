use delila_rs::metrics::AtomicCounters;

#[test]
fn test_add_methods() {
    let mut counters = AtomicCounters::new();
    counters.add_received(10);
    counters.add_processed(5);
    counters.add_events_received(100);
    counters.add_events_processed(95);
    counters.add_bytes(1000);

    let snap = counters.snapshot();
    assert_eq!(snap.received, 10);
    assert_eq!(snap.processed, 5);
    assert_eq!(snap.events_received, 100);
    assert_eq!(snap.events_processed, 95);
    assert_eq!(snap.bytes, 1000);
}

#[test]
fn test_snapshot() {
    let mut counters = AtomicCounters::new();
    counters.add_received(100);
    counters.add_processed(90);
    counters.inc_dropped();

    let snap = counters.snapshot();
    assert_eq!(snap.received, 100);
    assert_eq!(snap.processed, 90);
    assert_eq!(snap.dropped, 1);
}

#[test]
fn test_reset() {
    let mut counters = AtomicCounters::new();
    counters.add_received(100);
    counters.add_processed(50);
    counters.reset();

    let snap = counters.snapshot();
    assert_eq!(snap.received, 0);
    assert_eq!(snap.processed, 0);
}

#[test]
fn test_inc_methods() {
    let mut counters = AtomicCounters::new();
    counters.inc_received();
    counters.inc_received();
    counters.inc_processed();
    counters.inc_dropped();
    let snap = counters.snapshot();
    assert_eq!(snap.received, 2);
    assert_eq!(snap.processed, 1);
    assert_eq!(snap.dropped, 1);
}

#[test]
fn counters_wrap_around() {
    let mut counters = AtomicCounters::new();
    counters.add_bytes(u64::MAX);
    counters.add_bytes(2);
    assert_eq!(counters.snapshot().bytes, 1);
}
