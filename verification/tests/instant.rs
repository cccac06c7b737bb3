use redux::{monotonic_to_time, ClockAnchor, DriftClock, Instant, Timestamp};
use std::time::Duration;

fn at(nanos: u64) -> Instant {
    Instant::from(nanos)
}

#[test]
fn instant_duration_since_is_zero_for_a_later_instant() {
    assert_eq!(at(900).duration_since(at(400)), Duration::from_nanos(500));
    assert_eq!(at(400).duration_since(at(900)), Duration::ZERO);
    assert_eq!(at(900).saturating_duration_since(at(400)), Duration::from_nanos(500));
    assert_eq!(at(400).saturating_duration_since(at(900)), Duration::ZERO);
    assert_eq!(at(900) - at(400), Duration::from_nanos(500));
    assert_eq!(at(400) - at(900), Duration::ZERO);
}

#[test]
fn instant_elapsed_until_now() {
    assert_eq!(at(400).elapsed(at(1_400)), Duration::from_micros(1));
    assert_eq!(at(400).elapsed(at(400)), Duration::ZERO);
    assert_eq!(at(400).elapsed(at(100)), Duration::ZERO);
}

#[test]
fn the_wall_clock_time_of_now() {
    let anchor = ClockAnchor::new(at(100), Timestamp::new(1_000));
    assert_eq!(Timestamp::global_now(&anchor, at(130)), Timestamp::new(1_030));
    assert_eq!(Timestamp::global_now(&anchor, at(30)), Timestamp::new(1_000));
    assert_eq!(anchor.monotonic(), at(100));
    assert_eq!(anchor.system(), Timestamp::new(1_000));
}

#[test]
fn instant_checked_duration_since() {
    assert_eq!(at(900).checked_duration_since(at(400)), Some(Duration::from_nanos(500)));
    assert_eq!(at(900).checked_duration_since(at(900)), Some(Duration::ZERO));
    assert_eq!(at(400).checked_duration_since(at(900)), None);
}

#[test]
fn instant_moves_by_a_duration() {
    assert_eq!(at(400) + Duration::from_nanos(100), at(500));
    assert_eq!(at(400) - Duration::from_nanos(100), at(300));
    assert_eq!(at(400).checked_add(Duration::from_micros(1)), Some(at(1_400)));
    assert_eq!(at(1_400).checked_sub(Duration::from_micros(1)), Some(at(400)));
    assert!(at(1) < at(2));
}

#[test]
fn monotonic_time_is_converted_through_the_anchor() {
    let anchor = ClockAnchor::new(at(100), Timestamp::new(1_000));
    assert_eq!(monotonic_to_time(&anchor, at(100)), 1_000);
    assert_eq!(monotonic_to_time(&anchor, at(175)), 1_075);
    // A reading before the anchor counts as no time passed.
    assert_eq!(monotonic_to_time(&anchor, at(20)), 1_000);
    // Beyond 64 bits the result starts again at zero.
    let late = ClockAnchor::new(at(0), Timestamp::new(u64::MAX));
    assert_eq!(monotonic_to_time(&late, at(1)), 0);
    assert_eq!(monotonic_to_time(&late, at(11)), 10);
}

#[test]
fn a_clock_without_drift_repeats_the_monotonic_source() {
    let mut clock = DriftClock::new(Timestamp::new(5_000), at(10));
    assert_eq!(clock.now(Timestamp::new(5_000), at(10)), at(10));
    assert_eq!(clock.now(Timestamp::new(5_100), at(110)), at(110));
    // The wall clock may fall behind or go back: the source counts.
    assert_eq!(clock.now(Timestamp::new(5_050), at(200)), at(200));
    assert_eq!(clock.now(Timestamp::new(1), at(300)), at(300));
}

#[test]
fn a_stalled_source_is_corrected_by_the_wall_clock() {
    let start = 1_000_000u64;
    let mut clock = DriftClock::new(Timestamp::new(start), at(50));
    let mut last = clock.now(Timestamp::new(start), at(50));
    assert_eq!(last, at(50));
    // Both clocks run for 100 ns.
    let next = clock.now(Timestamp::new(start + 100), at(150));
    assert_eq!(next, at(150));
    assert!(next >= last);
    last = next;
    // The source stalls for 7000 ns while the wall clock advances.
    for step in 1..=7u64 {
        let next = clock.now(Timestamp::new(start + 100 + step * 1_000), at(150));
        assert_eq!(next, at(150 + step * 1_000));
        assert!(next >= last);
        last = next;
    }
    // The source resumes: the instants go on from the corrected time, and
    // reflect all the wall-clock time that has passed.
    let next = clock.now(Timestamp::new(start + 7_200), at(250));
    assert_eq!(next, at(7_250));
    assert!(next >= last);
    assert_eq!(next.duration_since(at(50)), Duration::from_nanos(7_200));
    last = next;
    // A wall clock that jumps back does not take the instants back.
    let next = clock.now(Timestamp::new(start), at(260));
    assert_eq!(next, at(7_260));
    assert!(next >= last);
}

#[test]
fn the_corrected_clock_stops_at_the_end_of_its_range() {
    let mut clock = DriftClock::new(Timestamp::new(0), at(u64::MAX - 10));
    assert_eq!(clock.now(Timestamp::new(500), at(u64::MAX - 10)), at(u64::MAX));
    assert_eq!(clock.now(Timestamp::new(500), at(u64::MAX - 5)), at(u64::MAX));
}
