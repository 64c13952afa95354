use std::time::Duration;

use term_input::timeout::{deadline_passed, remaining_nanos, PollTimeout};

#[test]
fn unbounded_timeout_never_elapses() {
    let t = PollTimeout::new(None);
    assert!(!t.elapsed());
    assert_eq!(t.leftover(), None);
}

#[test]
fn zero_timeout_has_elapsed_with_nothing_left() {
    let t = PollTimeout::new(Some(Duration::from_secs(0)));
    assert!(t.elapsed());
    assert_eq!(t.leftover(), Some(Duration::from_secs(0)));
}

#[test]
fn long_timeout_has_time_left() {
    let t = PollTimeout::new(Some(Duration::from_secs(10)));
    assert!(!t.elapsed());
    let left = t.leftover().unwrap();
    assert!(left <= Duration::from_secs(10));
    assert!(left > Duration::from_secs(9));
}

#[test]
fn short_timeout_clamps_at_zero_once_passed() {
    let t = PollTimeout::new(Some(Duration::from_millis(1)));
    let start = std::time::Instant::now();
    while start.elapsed() < Duration::from_millis(5) {}
    assert!(t.elapsed());
    assert_eq!(t.leftover(), Some(Duration::from_secs(0)));
}

#[test]
fn remaining_nanos_clamps_at_zero() {
    assert_eq!(remaining_nanos(2_000_000_000, 500_000_000), 1_500_000_000);
    assert_eq!(remaining_nanos(2_000_000_000, 2_000_000_000), 0);
    assert_eq!(remaining_nanos(2_000_000_000, 3_000_000_000), 0);
    assert_eq!(remaining_nanos(0, 0), 0);
}

#[test]
fn deadline_passes_when_nothing_is_left() {
    assert!(!deadline_passed(10, 9));
    assert!(deadline_passed(10, 10));
    assert!(deadline_passed(10, 11));
    assert!(deadline_passed(0, 0));
}
