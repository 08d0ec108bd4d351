use limedl_core::speed_tracker::SpeedTracker;

const MS: u64 = 1_000_000;
// A clock reading well past the window length, as a monotonic clock gives.
const T0: u64 = 3_600_000 * MS;

fn speed(tracker: &SpeedTracker, now: u64) -> Option<f64> {
    tracker
        .speed_sample(now)
        .map(|(bytes, elapsed_ns)| bytes as f64 / (elapsed_ns as f64 / 1_000_000_000.0))
}

#[test]
fn uninitialized_returns_none() {
    let tracker = SpeedTracker::new(T0);
    assert!(!tracker.is_initialized());
    assert_eq!(speed(&tracker, T0), None);
}

#[test]
fn initial_ramp_up_speed_calculation() {
    let mut tracker = SpeedTracker::new(T0);
    tracker.record_bytes(1_000_000, T0);
    assert!(tracker.is_initialized());

    let s = speed(&tracker, T0 + 100 * MS).unwrap();
    assert!((s - 5_000_000.0).abs() < 1.0, "got {s}");

    tracker.record_bytes(1_000_000, T0 + 500 * MS);
    let s = speed(&tracker, T0 + 500 * MS).unwrap();
    assert!((s - 4_000_000.0).abs() < 1.0, "got {s}");
}

#[test]
fn steady_state_speed_calculation() {
    let mut tracker = SpeedTracker::new(T0);
    for i in 0..10u64 {
        tracker.record_bytes(1_000_000, T0 + i * 200 * MS);
    }
    let s = speed(&tracker, T0 + 2000 * MS).unwrap();
    assert!((s - 5_000_000.0).abs() < 100.0, "got {s}");

    for i in 10..20u64 {
        tracker.record_bytes(1_000_000, T0 + i * 200 * MS);
    }
    let s = speed(&tracker, T0 + 4000 * MS).unwrap();
    assert!((s - 5_000_000.0).abs() < 100.0, "got {s}");
}

#[test]
fn stall_decays_to_none_after_window_expires() {
    let mut tracker = SpeedTracker::new(T0);
    tracker.record_bytes(5_000_000, T0);
    assert!(speed(&tracker, T0 + 500 * MS).is_some());
    assert_eq!(speed(&tracker, T0 + 2500 * MS), None);
}

#[test]
fn resume_after_stall_starts_fresh() {
    let mut tracker = SpeedTracker::new(T0);
    tracker.record_bytes(5_000_000, T0);
    let t1 = T0 + 10_000 * MS;
    tracker.record_bytes(2_000_000, t1);
    let s = speed(&tracker, t1 + 200 * MS).unwrap();
    assert!((s - 10_000_000.0).abs() < 1.0, "got {s}");
}

#[test]
fn reset_clears_all_history() {
    let mut tracker = SpeedTracker::new(T0);
    tracker.record_bytes(5_000_000, T0);
    assert!(tracker.is_initialized());
    tracker.reset(T0);
    assert!(!tracker.is_initialized());
    assert_eq!(speed(&tracker, T0 + 100 * MS), None);
}

// ── own scenarios ──────────────────────────────────────

#[test]
fn sample_is_bytes_and_clamped_elapsed() {
    let mut tracker = SpeedTracker::new(T0);
    tracker.record_bytes(1_000, T0);
    // under one bucket: elapsed is raised to 200 ms
    assert_eq!(tracker.speed_sample(T0 + 50 * MS), Some((1_000, 200 * MS)));
    tracker.record_bytes(3_000, T0 + 900 * MS);
    assert_eq!(tracker.speed_sample(T0 + 900 * MS), Some((4_000, 900 * MS)));
}

#[test]
fn zero_bytes_are_ignored() {
    let mut tracker = SpeedTracker::new(T0);
    tracker.record_bytes(0, T0);
    assert!(!tracker.is_initialized());
    assert_eq!(tracker.speed_sample(T0), None);
}

#[test]
fn earlier_timestamp_accumulates_in_current_bucket() {
    let mut tracker = SpeedTracker::new(T0);
    tracker.record_bytes(1_000, T0 + 100 * MS);
    tracker.record_bytes(500, T0);
    assert_eq!(tracker.speed_sample(T0 + 100 * MS), Some((1_500, 200 * MS)));
}
