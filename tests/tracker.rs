use portfolio_telemetry::tracker::{saturate_millis, PerformanceTracker};

#[test]
fn tracker_counts_up() {
    let t = PerformanceTracker::new();
    let first = t.elapsed_ms();
    let waited = std::time::Instant::now();
    while waited.elapsed().as_millis() < 5 {}
    assert!(t.elapsed_ms() >= first + 5);
    assert!(PerformanceTracker::default().elapsed_ms() < 1000);
}

#[test]
fn millis_saturate() {
    assert_eq!(saturate_millis(0), 0);
    assert_eq!(saturate_millis(1234), 1234);
    assert_eq!(saturate_millis(u64::MAX as u128 + 1), u64::MAX);
}
