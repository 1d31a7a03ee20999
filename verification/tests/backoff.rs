use std::time::Duration;

use runtime::runtime::{apply_jitter, exponential_backoff};
use runtime::{compute_backoff, ExhaustedAction, RestartPolicy};

fn spread_of(jitter: &f64, ms: u64) -> u64 {
    if *jitter > 0.0 {
        ((ms as f64) * jitter.clamp(0.0, 1.0)) as u64
    } else {
        0
    }
}

#[test]
fn backoff_grows_then_caps() {
    let policy = RestartPolicy {
        min_backoff: Duration::from_millis(100),
        max_backoff: Duration::from_secs(1),
        jitter: 0.0, // deterministic
        max_retries: None,
        on_exhausted: ExhaustedAction::ShutdownRuntime,
    };

    assert_eq!(compute_backoff(&policy, 1, &spread_of), Duration::from_millis(100));
    assert_eq!(compute_backoff(&policy, 2, &spread_of), Duration::from_millis(200));
    assert_eq!(compute_backoff(&policy, 3, &spread_of), Duration::from_millis(400));
    assert_eq!(compute_backoff(&policy, 4, &spread_of), Duration::from_millis(800));
    assert_eq!(compute_backoff(&policy, 5, &spread_of), Duration::from_millis(1000)); // capped
    assert_eq!(compute_backoff(&policy, 100, &spread_of), Duration::from_millis(1000));
}

#[test]
fn backoff_jitter_stays_in_bounds() {
    let policy = RestartPolicy {
        min_backoff: Duration::from_millis(1000),
        max_backoff: Duration::from_secs(60),
        jitter: 0.2,
        max_retries: None,
        on_exhausted: ExhaustedAction::ShutdownRuntime,
    };

    for _ in 0..100 {
        let b = compute_backoff(&policy, 3, &spread_of); // base = 4000ms, jitter ±800ms
        let ms = b.as_millis() as u64;
        assert!(ms >= 3200 && ms <= 4800, "got {ms}ms, want 3200..=4800");
    }
}

#[test]
fn backoff_with_huge_attempt_doesnt_overflow() {
    let policy = RestartPolicy {
        min_backoff: Duration::from_secs(1),
        max_backoff: Duration::from_secs(30),
        jitter: 0.0,
        max_retries: None,
        on_exhausted: ExhaustedAction::ShutdownRuntime,
    };
    // Saturation; just confirm it doesn't panic and is bounded.
    let b = compute_backoff(&policy, u32::MAX, &spread_of);
    assert!(b <= Duration::from_secs(30));
}

#[test]
fn jitter_is_drawn_anew() {
    let policy = RestartPolicy::with_bounds(Duration::from_secs(3600), Duration::from_secs(3600), 1.0);
    let first = compute_backoff(&policy, 1, &spread_of);
    let moved = (0..100).any(|_| compute_backoff(&policy, 1, &spread_of) != first);
    assert!(moved, "100 draws from 7200001 all alike");
}

fn plain(min: Duration, max: Duration, attempt: u32) -> Duration {
    exponential_backoff(&RestartPolicy::with_bounds(min, max, 0.0), attempt)
}

#[test]
fn attempt_zero_counts_as_the_first() {
    let (min, max) = (Duration::from_millis(100), Duration::from_secs(1));
    assert_eq!(plain(min, max, 0), min);
    assert_eq!(plain(min, max, 1), min);
}

#[test]
fn backoff_doubles_all_the_way_to_a_distant_cap() {
    let min = Duration::from_millis(1);
    assert_eq!(plain(min, Duration::MAX, 22), Duration::from_millis(2_097_152));
    assert_eq!(plain(min, Duration::MAX, 64), Duration::from_millis(1 << 63));
    let last = Duration::new(9_444_732_965_739_290_427, 392_000_000);
    assert_eq!(plain(min, Duration::MAX, 74), last);
    assert_eq!(plain(min, Duration::MAX, 75), Duration::MAX);
    assert_eq!(plain(min, Duration::MAX, u32::MAX), Duration::MAX);
}

#[test]
fn backoff_of_nothing_stays_nothing() {
    let policy = RestartPolicy::with_bounds(Duration::ZERO, Duration::from_secs(1), 0.5);
    assert_eq!(compute_backoff(&policy, 70, &spread_of), Duration::ZERO);
    assert_eq!(plain(Duration::ZERO, Duration::MAX, u32::MAX), Duration::ZERO);
}

#[test]
fn backoff_above_its_cap_is_capped_at_once() {
    let (min, max) = (Duration::from_secs(5), Duration::from_secs(2));
    assert_eq!(plain(min, max, 1), max);
}

#[test]
fn fractions_of_a_millisecond_are_kept() {
    let policy = RestartPolicy {
        min_backoff: Duration::from_micros(500),
        max_backoff: Duration::from_secs(1),
        jitter: 0.0,
        max_retries: None,
        on_exhausted: ExhaustedAction::ShutdownRuntime,
    };
    assert_eq!(compute_backoff(&policy, 1, &spread_of), Duration::from_micros(500));
    assert_eq!(compute_backoff(&policy, 4, &spread_of), Duration::from_millis(4));
    assert_eq!(
        plain(Duration::from_nanos(7), Duration::from_nanos(100), 4),
        Duration::from_nanos(56)
    );
    assert_eq!(
        plain(Duration::from_nanos(7), Duration::from_nanos(100), 5),
        Duration::from_nanos(100)
    );
}

#[test]
fn the_longest_duration_is_a_delay_too() {
    assert_eq!(plain(Duration::MAX, Duration::MAX, 1), Duration::MAX);
    assert_eq!(plain(Duration::MAX, Duration::MAX, 9), Duration::MAX);
}

#[test]
fn jitter_moves_down_then_up() {
    let ms = Duration::from_millis;
    assert_eq!(apply_jitter(ms(4000), 800, 0), ms(3200));
    assert_eq!(apply_jitter(ms(4000), 800, 800), ms(4000));
    assert_eq!(apply_jitter(ms(4000), 800, 1600), ms(4800));
    assert_eq!(apply_jitter(ms(5), 10, 3), ms(3));
    assert_eq!(apply_jitter(Duration::MAX, 1, u64::MAX), Duration::MAX);
    assert_eq!(apply_jitter(Duration::from_micros(2500), 1, 2), Duration::from_micros(3500));
    assert_eq!(apply_jitter(ms(7), 0, 0), ms(7));
}

#[test]
fn default_policy_bounds() {
    let policy = RestartPolicy::with_jitter(0.2);
    assert_eq!(policy.min_backoff, Duration::from_millis(250));
    assert_eq!(policy.max_backoff, Duration::from_secs(30));
    assert_eq!(policy.jitter, 0.2);
    assert_eq!(policy.max_retries, None);
    assert_eq!(policy.on_exhausted, ExhaustedAction::ShutdownRuntime);
}

#[test]
fn with_bounds_has_no_retry_cap() {
    let policy = RestartPolicy::with_bounds(Duration::from_millis(1), Duration::from_millis(2), 0.2);
    assert_eq!(policy.min_backoff, Duration::from_millis(1));
    assert_eq!(policy.max_backoff, Duration::from_millis(2));
    assert_eq!(policy.max_retries, None);
    assert_eq!(policy.on_exhausted, ExhaustedAction::ShutdownRuntime);
}
