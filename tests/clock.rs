use bookmarks::clock::{not_before, saturate_nanos, Clock, ManualClock, SystemClock};

#[test]
fn manual_clock_stands_still_until_advanced() {
    let mut clock = ManualClock::new(42);
    assert_eq!(clock.now(), 42);
    assert_eq!(clock.now(), 42);
    clock.advance(8);
    assert_eq!(clock.now(), 50);
}

#[test]
fn manual_clock_advance_stops_at_largest_time() {
    let mut clock = ManualClock::new(u64::MAX - 1);
    clock.advance(10);
    assert_eq!(clock.now(), u64::MAX);
}

#[test]
fn system_clock_is_monotonic() {
    let mut clock = SystemClock::new();
    let mut last = clock.now();
    for _ in 0..100 {
        let t = clock.now();
        assert!(last <= t);
        last = t;
    }
}

#[test]
fn saturate_nanos_keeps_small_values() {
    assert_eq!(saturate_nanos(0), 0);
    assert_eq!(saturate_nanos(1_500), 1_500);
    assert_eq!(saturate_nanos(u64::MAX as u128), u64::MAX);
    assert_eq!(saturate_nanos(u64::MAX as u128 + 1), u64::MAX);
}

#[test]
fn not_before_takes_the_later_time() {
    assert_eq!(not_before(10, 4), 10);
    assert_eq!(not_before(10, 12), 12);
    assert_eq!(not_before(10, 10), 10);
}
