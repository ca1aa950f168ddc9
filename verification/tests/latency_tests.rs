use std::time::Duration;

use qdrant_toolkit::latency::{LatencyHistogram, LatencyStats, OptimizationLatencyTracker};

#[test]
fn test_latency_histogram_basic() {
    let mut histogram = LatencyHistogram::default();

    // Record some latencies
    histogram.record(Duration::from_micros(500)); // < 1ms
    histogram.record(Duration::from_micros(3000)); // 1-5ms
    histogram.record(Duration::from_micros(30000)); // 25-50ms
    histogram.record(Duration::from_micros(60000)); // 50-100ms

    let stats = histogram.snapshot();
    assert_eq!(stats.count, 4);
    assert!(stats.min_latency_us <= 500);
    assert!(stats.max_latency_us >= 60000);
}

#[test]
fn test_p99_calculation() {
    let mut histogram = LatencyHistogram::default();

    // Record 100 operations: 99 fast, 1 slow
    for _ in 0..99 {
        histogram.record(Duration::from_micros(1000)); // 1ms
    }
    histogram.record(Duration::from_micros(100000)); // 100ms

    let stats = histogram.snapshot();
    assert_eq!(stats.count, 100);
    // P99 should be in the fast range
    assert!(stats.p99_latency_us < 100000);
}

#[test]
fn test_rfc_goal_check() {
    let mut histogram = LatencyHistogram::default();

    // All operations under 50ms
    for _ in 0..100 {
        histogram.record(Duration::from_micros(10000)); // 10ms
    }

    let stats = histogram.snapshot();
    assert!(stats.meets_rfc_goal(), "Should meet RFC goal of P99 < 50ms");
    // The 99th percentile in milliseconds, as the application layer reports it.
    assert!((stats.p99_latency_us as f64 / 1000.0) < 50.0);
}

#[test]
fn test_optimization_tracker() {
    let mut tracker = OptimizationLatencyTracker::default();

    assert!(!tracker.is_optimizing());

    // Start optimization
    tracker.start_optimization();
    assert!(tracker.is_optimizing());

    // Record some searches during optimization
    tracker.record_search(Duration::from_micros(10000));
    tracker.record_search(Duration::from_micros(20000));

    let opt_stats = tracker.get_optimization_stats();
    assert_eq!(opt_stats.count, 2);

    let normal_stats = tracker.get_normal_stats();
    assert_eq!(normal_stats.count, 0);

    // End optimization
    tracker.end_optimization();
    assert!(!tracker.is_optimizing());

    // Record searches during normal operation
    tracker.record_search(Duration::from_micros(5000));

    let normal_stats = tracker.get_normal_stats();
    assert_eq!(normal_stats.count, 1);
}

#[test]
fn bucket_boundaries_follow_exclusive_upper_bounds() {
    let mut h = LatencyHistogram::default();
    h.record_micros(0);
    h.record_micros(999);
    h.record_micros(1_000);
    h.record_micros(4_999);
    h.record_micros(5_000);
    h.record_micros(49_999);
    h.record_micros(50_000);
    h.record_micros(999_999);
    h.record_micros(1_000_000);
    h.record_micros(u64::MAX);
    let s = h.snapshot();
    assert_eq!(s.histogram, vec![2, 2, 1, 0, 1, 1, 0, 0, 1, 2]);
    assert_eq!(s.count, 10);
    assert_eq!(s.min_latency_us, 0);
    assert_eq!(s.max_latency_us, u64::MAX);
}

#[test]
fn empty_histogram_snapshot() {
    let h = LatencyHistogram::default();
    let s = h.snapshot();
    assert_eq!(s.count, 0);
    assert_eq!(s.mean_latency_us, 0);
    assert_eq!(s.min_latency_us, 0);
    assert_eq!(s.max_latency_us, 0);
    // With no samples the threshold is 0, reached at the first bucket.
    assert_eq!(s.p99_latency_us, 1_000);
    assert_eq!(s.histogram, vec![0; 10]);
}

#[test]
fn mean_is_rounded_down() {
    let mut h = LatencyHistogram::default();
    h.record_micros(10);
    h.record_micros(11);
    let s = h.snapshot();
    assert_eq!(s.mean_latency_us, 10);
}

#[test]
fn p99_in_overflow_bucket_reports_max() {
    let mut h = LatencyHistogram::default();
    h.record_micros(2_000_000);
    h.record_micros(3_500_000);
    let s = h.snapshot();
    assert_eq!(s.p99_latency_us, 3_500_000);
    assert!(!s.meets_rfc_goal());
}

#[test]
fn p99_exact_bucket_bound() {
    let mut h = LatencyHistogram::default();
    for _ in 0..99 {
        h.record_micros(100);
    }
    h.record_micros(300_000);
    // threshold 99 is reached in the first bucket
    assert_eq!(h.snapshot().p99_latency_us, 1_000);
    h.record_micros(300_000);
    // 101 samples: 99% of them is 99.99, so 100 samples must be covered;
    // the first bucket holds 99, the [250ms, 500ms) bucket the rest
    assert_eq!(h.snapshot().p99_latency_us, 500_000);
}

#[test]
fn p99_single_slow_sample() {
    let mut h = LatencyHistogram::default();
    h.record(Duration::from_millis(600));
    let s = h.snapshot();
    assert_eq!(s.count, 1);
    assert_eq!(s.min_latency_us, 600_000);
    assert_eq!(s.max_latency_us, 600_000);
    // the only sample lies in [500ms, 1s)
    assert_eq!(s.p99_latency_us, 1_000_000);
    assert!(!s.meets_rfc_goal());
}

#[test]
fn p99_covers_at_least_99_percent() {
    // n samples at 100us and one at 2ms: the slow one is within the top 1%
    // only when n + 1 >= 100
    for n in 1usize..300 {
        let mut h = LatencyHistogram::default();
        for _ in 0..n {
            h.record_micros(100);
        }
        h.record_micros(2_000);
        let total = n + 1;
        let expected = if n * 100 >= total * 99 { 1_000 } else { 5_000 };
        assert_eq!(h.snapshot().p99_latency_us, expected, "n {}", n);
    }
}

#[test]
fn meets_goal_boundary() {
    let mut stats = LatencyStats {
        count: 1,
        mean_latency_us: 0,
        min_latency_us: 0,
        max_latency_us: 0,
        p99_latency_us: 49_999,
        histogram: vec![0; 10],
    };
    assert!(stats.meets_rfc_goal());
    stats.p99_latency_us = 50_000;
    assert!(!stats.meets_rfc_goal());
}

#[test]
fn reset_clears_histogram() {
    let mut h = LatencyHistogram::default();
    h.record_micros(42);
    h.reset();
    let s = h.snapshot();
    assert_eq!(s.count, 0);
    assert_eq!(s.histogram, vec![0; 10]);
    assert_eq!(s.min_latency_us, 0);
}

#[test]
fn end_undoes_start_and_reset_keeps_activity() {
    let mut t = OptimizationLatencyTracker::default();
    t.start_optimization();
    t.start_optimization();
    t.end_optimization();
    assert!(t.is_optimizing());
    t.record_search(Duration::from_micros(7));
    t.reset();
    assert!(t.is_optimizing());
    assert_eq!(t.get_optimization_stats().count, 0);
    t.end_optimization();
    assert!(!t.is_optimizing());
}

#[test]
fn end_without_start_wraps_the_counter() {
    let mut t = OptimizationLatencyTracker::default();
    t.end_optimization();
    // the counter wraps around, as an unsigned atomic subtraction does
    assert!(t.is_optimizing());
    t.start_optimization();
    assert!(!t.is_optimizing());
}

#[test]
fn durations_are_counted_in_microseconds() {
    let mut h = LatencyHistogram::default();
    h.record(Duration::from_millis(2));
    h.record(Duration::from_nanos(1_999));
    let s = h.snapshot();
    assert_eq!(s.min_latency_us, 1);
    assert_eq!(s.max_latency_us, 2_000);
    assert_eq!(s.histogram[0], 1);
    assert_eq!(s.histogram[1], 1);
}

#[test]
fn history_statistics_in_any_order() {
    let latencies = [700u64, 12_000, 300, 2_500_000, 49_000];
    let mut forward = LatencyHistogram::default();
    let mut backward = LatencyHistogram::default();
    for &l in latencies.iter() {
        forward.record_micros(l);
    }
    for &l in latencies.iter().rev() {
        backward.record_micros(l);
    }
    for s in [forward.snapshot(), backward.snapshot()] {
        assert_eq!(s.count, 5);
        assert_eq!(s.histogram, vec![2, 0, 0, 1, 1, 0, 0, 0, 0, 1]);
        assert_eq!(s.min_latency_us, 300);
        assert_eq!(s.max_latency_us, 2_500_000);
        assert_eq!(s.mean_latency_us, (700 + 12_000 + 300 + 2_500_000 + 49_000) / 5);
    }
}

#[test]
fn optimization_counter_counts_starts_and_ends() {
    let mut tracker = OptimizationLatencyTracker::default();
    tracker.start_optimization();
    tracker.start_optimization();
    tracker.end_optimization();
    assert!(tracker.is_optimizing());
    tracker.record_search(Duration::from_micros(2_000));
    tracker.end_optimization();
    assert!(!tracker.is_optimizing());
    tracker.record_search(Duration::from_micros(2_000));
    assert_eq!(tracker.get_optimization_stats().count, 1);
    assert_eq!(tracker.get_normal_stats().count, 1);
}
