use wsbench::tracker::PendingRequestTracker;

#[test]
fn resolve_is_at_most_once() {
    let mut t = PendingRequestTracker::new();
    t.register(2, 0, 1_000);
    assert_eq!(t.resolve(2, 0, 1_750), Some(750));
    // the same identifier never resolves twice
    assert_eq!(t.resolve(2, 0, 9_999), None);
    assert_eq!(t.len(), 1);
}

#[test]
fn resolve_matches_connection_and_counter() {
    let mut t = PendingRequestTracker::new();
    t.register(1, 7, 100);
    // unknown counter
    assert_eq!(t.resolve(1, 8, 200), None);
    // right counter, wrong connection
    assert_eq!(t.resolve(2, 7, 200), None);
    // the entry is still unresolved and can be matched
    assert_eq!(t.resolve(1, 7, 300), Some(200));
}

#[test]
fn latency_is_clamped_never_negative() {
    let mut t = PendingRequestTracker::new();
    t.register(0, 0, 5_000);
    // a clock reading before the registration yields zero, not wrap-around
    assert_eq!(t.resolve(0, 0, 4_000), Some(0));
}

#[test]
fn unresolved_entries_simply_remain() {
    let mut t = PendingRequestTracker::new();
    for k in 0..5u64 {
        t.register(0, k, k * 10);
    }
    assert_eq!(t.len(), 5);
    assert_eq!(t.resolve(0, 3, 100), Some(70));
    // nothing is expired or collected; the rest stay pending
    assert_eq!(t.len(), 5);
}
