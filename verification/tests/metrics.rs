use loadtest_worker::metrics::{
    clamp_to_range, MetricsCollector, Readings, Recording, Summary, MAX_LATENCY_US,
    MAX_WINDOW_COUNT, MIN_LATENCY_US, SIGNIFICANT_DIGITS,
};

fn zero_summary() -> Summary {
    Summary { count: 0, success: 0, error: 0, min: 0, max: 0, mean: 0, p50: 0, p90: 0, p95: 0, p99: 0 }
}

#[test]
fn histogram_bounds_are_one_microsecond_to_one_hour() {
    assert_eq!(MIN_LATENCY_US, 1);
    assert_eq!(MAX_LATENCY_US, 3_600_000_000);
    assert_eq!(SIGNIFICANT_DIGITS, 3);
    assert_eq!(MAX_WINDOW_COUNT, 1u64 << 53);
}

#[test]
fn new_window_reports_all_zero() {
    let c = MetricsCollector::new();
    assert_eq!(c.snapshot(), zero_summary());
    assert_eq!(c.total_count(), 0);
    assert_eq!(c.window_start(), 0);
    assert_eq!(c.get_stats(), (0, 0, 0, 0, 0, 0));
}

#[test]
fn with_start_remembers_the_start() {
    let c = MetricsCollector::with_start(42_000);
    assert_eq!(c.window_start(), 42_000);
    assert_eq!(c.snapshot(), zero_summary());
}

#[test]
fn one_success_is_counted_and_sampled() {
    let mut c = MetricsCollector::new();
    assert!(c.record_success(1000));
    let s = c.snapshot();
    assert_eq!(
        s,
        Summary {
            count: 1,
            success: 1,
            error: 0,
            min: 1000,
            max: 1000,
            mean: 1000,
            p50: 1000,
            p90: 1000,
            p95: 1000,
            p99: 1000,
        }
    );
}

#[test]
fn percentile_reading_is_a_latency_not_a_percentage() {
    let mut c = MetricsCollector::new();
    for _ in 0..100 {
        c.record_success(1500);
    }
    let s = c.snapshot();
    assert_eq!(s.p50, 1500);
    assert_eq!(s.p90, 1500);
    assert_eq!(s.p95, 1500);
    assert_eq!(s.p99, 1500);
    assert_eq!(s.min, 1500);
    assert_eq!(s.max, 1500);
    assert_eq!(s.mean, 1500);
}

#[test]
fn latency_below_range_is_clamped_to_one() {
    assert_eq!(clamp_to_range(0), 1);
    let mut c = MetricsCollector::new();
    c.record_success(0);
    let s = c.snapshot();
    assert_eq!(s.count, 1);
    assert_eq!(s.min, 1);
    assert_eq!(s.max, 1);
}

#[test]
fn latency_above_range_is_clamped_to_one_hour() {
    assert_eq!(clamp_to_range(u64::MAX), 3_600_000_000);
    assert_eq!(clamp_to_range(3_600_000_001), 3_600_000_000);
    assert_eq!(clamp_to_range(3_600_000_000), 3_600_000_000);
    assert_eq!(clamp_to_range(77), 77);
    let mut at_cap = MetricsCollector::new();
    at_cap.record_success(3_600_000_000);
    let mut over = MetricsCollector::new();
    over.record_success(u64::MAX);
    assert_eq!(over.snapshot(), at_cap.snapshot());
    let s = over.snapshot();
    assert!(s.max >= 3_600_000_000);
    assert!(s.max <= 3_603_600_000);
    assert!(s.min <= 3_600_000_000);
    assert!(s.min >= 3_596_400_000);
}

#[test]
fn error_without_latency_counts_but_is_not_sampled() {
    let mut c = MetricsCollector::new();
    assert!(c.record_error(None));
    let s = c.snapshot();
    assert_eq!(s.count, 1);
    assert_eq!(s.success, 0);
    assert_eq!(s.error, 1);
    assert_eq!(s.min, 0);
    assert_eq!(s.max, 0);
    assert_eq!(s.mean, 0);
    assert_eq!(s.p99, 0);
}

#[test]
fn error_with_latency_is_sampled() {
    let mut c = MetricsCollector::new();
    assert!(c.record_error(Some(250)));
    let s = c.snapshot();
    assert_eq!(s.count, 1);
    assert_eq!(s.error, 1);
    assert_eq!(s.max, 250);
    assert_eq!(s.p50, 250);
}

#[test]
fn record_dispatches_on_the_recording() {
    let mut c = MetricsCollector::new();
    assert!(c.record(Recording::Success(10)));
    assert!(c.record(Recording::Error(Some(30))));
    assert!(c.record(Recording::Error(None)));
    let s = c.snapshot();
    assert_eq!((s.count, s.success, s.error), (3, 1, 2));
    assert_eq!(s.min, 10);
    assert_eq!(s.max, 30);
}

#[test]
fn percentiles_of_one_to_thousand() {
    let mut c = MetricsCollector::new();
    for v in 1..=1000u64 {
        c.record_success(v);
    }
    let s = c.snapshot();
    assert_eq!(s.count, 1000);
    assert_eq!(s.min, 1);
    assert_eq!(s.max, 1000);
    assert_eq!(s.p50, 500);
    assert_eq!(s.p90, 900);
    assert_eq!(s.p95, 950);
    assert_eq!(s.p99, 990);
    assert_eq!(s.mean, 500);
}

#[test]
fn percentiles_rise_and_mean_lies_between_extremes() {
    let mut c = MetricsCollector::new();
    let mut v: u64 = 1;
    for i in 0..5000u64 {
        v = (v * 6364136223846793005 + 1442695040888963407) % 4_000_000_000;
        if i % 7 == 0 {
            c.record_error(Some(v));
        } else {
            c.record_success(v);
        }
        if i % 500 == 0 {
            let s = c.snapshot();
            assert!(s.p50 <= s.p90);
            assert!(s.p90 <= s.p95);
            assert!(s.p95 <= s.p99);
            assert!(s.p99 <= s.max);
            assert!(s.min <= s.mean);
            assert!(s.mean <= s.max);
            assert_eq!(s.success + s.error, s.count);
        }
    }
}

#[test]
fn snapshot_leaves_the_window_alone() {
    let mut c = MetricsCollector::new();
    c.record_success(5);
    c.record_success(9);
    let first = c.snapshot();
    let second = c.snapshot();
    assert_eq!(first, second);
    assert_eq!(c.total_count(), 2);
}

#[test]
fn reset_forgets_what_came_before() {
    let mut c = MetricsCollector::new();
    c.record_success(900_000);
    c.record_error(Some(800_000));
    c.record_error(None);
    let before = c.snapshot();
    assert_eq!(before.count, 3);
    c.reset(7_000_000);
    assert_eq!(c.snapshot(), zero_summary());
    assert_eq!(c.window_start(), 7_000_000);
    c.record_success(40);
    c.record_success(60);
    let after = c.snapshot();

    let mut fresh = MetricsCollector::new();
    fresh.record_success(40);
    fresh.record_success(60);
    assert_eq!(after, fresh.snapshot());
    assert_eq!(after.count, 2);
    assert_eq!(after.max, 60);
    assert_eq!(after.min, 40);
}

#[test]
fn get_stats_is_total_success_errors_mean_p95_p99() {
    let mut c = MetricsCollector::new();
    for v in 1..=100u64 {
        c.record_success(v * 10);
    }
    c.record_error(None);
    let s = c.snapshot();
    assert_eq!(c.get_stats(), (101, 100, 1, s.mean, s.p95, s.p99));
    assert_eq!(c.get_stats().4, 950);
    assert_eq!(c.get_stats().5, 990);
    assert_eq!(c.total_count(), 101);
}

#[test]
fn summary_of_nothing_is_zero_whatever_the_readings() {
    let r = Readings { min: 3, max: 9, mean: 5, p50: 4, p90: 6, p95: 7, p99: 8 };
    assert_eq!(Summary::from_readings(0, 0, r), zero_summary());
}

#[test]
fn summary_takes_readings_and_adds_counts() {
    let r = Readings { min: 3, max: 9, mean: 5, p50: 4, p90: 6, p95: 7, p99: 8 };
    assert_eq!(
        Summary::from_readings(2, 1, r),
        Summary { count: 3, success: 2, error: 1, min: 3, max: 9, mean: 5, p50: 4, p90: 6, p95: 7, p99: 8 }
    );
}

#[test]
fn summary_holds_the_mean_between_the_extremes() {
    let low = Readings { min: 30, max: 90, mean: 29, p50: 40, p90: 60, p95: 70, p99: 80 };
    assert_eq!(Summary::from_readings(1, 0, low).mean, 30);
    let high = Readings { min: 30, max: 90, mean: 91, p50: 40, p90: 60, p95: 70, p99: 80 };
    assert_eq!(Summary::from_readings(0, 1, high).mean, 90);
}

#[test]
fn summary_count_stops_at_the_largest_u64() {
    let r = Readings { min: 1, max: 2, mean: 1, p50: 1, p90: 1, p95: 2, p99: 2 };
    assert_eq!(Summary::from_readings(u64::MAX, 1, r).count, u64::MAX);
    assert_eq!(Summary::from_readings(u64::MAX, u64::MAX, r).count, u64::MAX);
    assert_eq!(Summary::from_readings(u64::MAX - 1, 1, r).count, u64::MAX);
    assert_eq!(Summary::from_readings(u64::MAX - 2, 1, r).count, u64::MAX - 1);
}

#[test]
fn reports_account_for_every_recording() {
    let mut c = MetricsCollector::new();
    let mut seed = 5u64;
    let mut recorded = 0u64;
    let mut successes = 0u64;
    let mut reported = 0u64;
    let mut reported_successes = 0u64;
    for step in 0..4000u64 {
        seed = seed.wrapping_mul(6364136223846793005).wrapping_add(1442695040888963407);
        match (seed >> 40) % 5 {
            0 => {
                let s = c.snapshot();
                reported += s.count;
                reported_successes += s.success;
                c.reset(step);
            }
            1 | 2 => {
                assert!(c.record_success(seed >> 50));
                recorded += 1;
                successes += 1;
            }
            3 => {
                assert!(c.record_error(Some(seed >> 52)));
                recorded += 1;
            }
            _ => {
                assert!(c.record_error(None));
                recorded += 1;
            }
        }
        assert_eq!(reported + c.total_count(), recorded);
        assert_eq!(reported_successes + c.snapshot().success, successes);
    }
    let last = c.snapshot();
    c.reset(0);
    assert_eq!(reported + last.count, recorded);
    assert_eq!(c.total_count(), 0);
}

#[test]
fn stats_count_every_recording_and_keep_the_percentiles_in_order() {
    let mut c = MetricsCollector::new();
    assert_eq!(c.get_stats(), (0, 0, 0, 0, 0, 0));
    let mut seed = 17u64;
    for i in 0..500u64 {
        seed = seed.wrapping_mul(6364136223846793005).wrapping_add(1442695040888963407);
        if i % 7 == 3 {
            c.record_error(Some((seed >> 40) % 60_000));
        } else {
            c.record_success((seed >> 40) % 60_000);
        }
        let (total, success, errors, _, p95, p99) = c.get_stats();
        assert_eq!(total, i + 1);
        assert_eq!(success + errors, total);
        assert!(p95 <= p99);
    }
}
