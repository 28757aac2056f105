use std::time::{Duration, Instant};
use tix_core::rdp::BandwidthEstimator;

#[test]
fn empty_estimator_returns_zero() {
    let est = BandwidthEstimator::new();
    assert_eq!(est.estimate_bps(), 0);
}

#[test]
fn single_sample() {
    let mut est = BandwidthEstimator::new();
    est.record(1024);
    // With a single point the interval is zero → we get some value.
    let bps = est.estimate_bps();
    assert!(bps >= 1024);
}

#[test]
fn two_samples_one_second_apart() {
    let mut est = BandwidthEstimator::with_window(Duration::from_secs(5));
    let t0 = Instant::now();
    est.record_at(t0, 1_000_000);
    est.record_at(t0 + Duration::from_secs(1), 1_000_000);
    let bps = est.estimate_bps();
    // 2 MB over 1 second ≈ 2 MB/s.
    assert!(bps >= 1_900_000 && bps <= 2_100_000, "bps = {bps}");
}

#[test]
fn evicts_old_samples() {
    let mut est = BandwidthEstimator::with_window(Duration::from_millis(500));
    let t0 = Instant::now();
    est.record_at(t0, 1000);
    // Fast-forward beyond the window.
    est.record_at(t0 + Duration::from_secs(1), 500);
    // Old sample should be evicted.
    assert_eq!(est.sample_count(), 1);
}

#[test]
fn smoothed_rtt() {
    let mut est = BandwidthEstimator::new();
    est.record_rtt(Duration::from_millis(10));
    assert_eq!(est.latency(), Duration::from_millis(10));

    est.record_rtt(Duration::from_millis(2));
    // EWMA: (10000 * 7/8 + 2000 / 8) = 8750 + 250 = 9000 µs = 9 ms
    assert!(est.latency().as_micros() > 8000 && est.latency().as_micros() < 10000);
}

#[test]
fn estimate_is_bytes_over_the_span_of_the_samples() {
    let mut est = BandwidthEstimator::with_window(Duration::from_secs(5));
    let t0 = Instant::now();
    est.record_at(t0, 1_000_000);
    est.record_at(t0 + Duration::from_secs(1), 1_000_000);
    assert_eq!(est.estimate_bps(), 2_000_000);
    assert_eq!(est.total_bytes(), 2_000_000);
    est.record_at(t0 + Duration::from_millis(2500), 500_000);
    assert_eq!(est.estimate_bps(), 1_000_000);
    // one sample: the span is taken as a millisecond
    let mut one = BandwidthEstimator::default();
    one.record_at(t0, 1024);
    assert_eq!(one.estimate_bps(), 1_024_000);
    // the rate is capped at the top of the range
    let mut huge = BandwidthEstimator::new();
    huge.record_at(t0, u64::MAX);
    assert_eq!(huge.estimate_bps(), u64::MAX);
}

#[test]
fn constant_ingress_is_estimated_within_a_tenth() {
    // 10 kB every 10 ms for two seconds through a window of one second
    let mut est = BandwidthEstimator::new();
    let t0 = Instant::now();
    for i in 0..200u64 {
        est.record_at(t0 + Duration::from_millis(10 * i), 10_000);
    }
    let bps = est.estimate_bps();
    assert!(bps >= 900_000 && bps <= 1_100_000, "bps = {bps}");
    // what is older than the window has left
    assert_eq!(est.sample_count(), 101);
    assert_eq!(est.total_bytes(), 1_010_000);
}

#[test]
fn eviction_is_strict_and_from_the_front() {
    let mut est = BandwidthEstimator::with_window(Duration::from_millis(500));
    let t0 = Instant::now();
    est.record_at(t0, 1);
    est.record_at(t0 + Duration::from_millis(100), 2);
    // exactly as old as the window: stays
    est.record_at(t0 + Duration::from_millis(500), 4);
    assert_eq!(est.sample_count(), 3);
    assert_eq!(est.total_bytes(), 7);
    est.record_at(t0 + Duration::from_millis(501), 8);
    assert_eq!(est.sample_count(), 3);
    assert_eq!(est.total_bytes(), 14);
    est.record_at(t0 + Duration::from_secs(10), 16);
    assert_eq!(est.sample_count(), 1);
    assert_eq!(est.total_bytes(), 16);
}

#[test]
fn smoothing_takes_an_eighth_of_each_later_sample() {
    let mut est = BandwidthEstimator::new();
    assert_eq!(est.latency(), Duration::ZERO);
    est.record_rtt(Duration::from_micros(10_000));
    assert_eq!(est.latency(), Duration::from_micros(10_000));
    est.record_rtt(Duration::from_micros(2_000));
    assert_eq!(est.latency(), Duration::from_micros(9_000));
    est.record_rtt(Duration::from_micros(9));
    assert_eq!(est.latency(), Duration::from_micros(7_876));
    // whole microseconds only
    let mut fine = BandwidthEstimator::new();
    fine.record_rtt(Duration::from_nanos(1_999));
    assert_eq!(fine.latency(), Duration::from_micros(1));
}
