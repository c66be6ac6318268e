use notipoll::cadence::{CadenceState, EMPTY_STREAK_THRESHOLD};

#[test]
fn empty_cycle_grows_interval_by_factor() {
    let mut s = CadenceState::new(60_000, 200_000);
    s.cycle_was_empty();
    assert_eq!(s.current_interval_ms, 72_000);
    assert_eq!(s.empty_streak, 1);
    s.cycle_was_empty();
    assert_eq!(s.current_interval_ms, 86_400);
    assert_eq!(s.empty_streak, 2);
}

#[test]
fn empty_cycle_never_decreases_interval() {
    let mut s = CadenceState::new(60_000, 200_000);
    let mut prev = s.current_interval_ms;
    for _ in 0..EMPTY_STREAK_THRESHOLD {
        s.cycle_was_empty();
        assert!(s.current_interval_ms >= prev);
        prev = s.current_interval_ms;
    }
}

#[test]
fn empty_cycle_caps_at_max_and_stays_there() {
    let mut s = CadenceState::new(60_000, 200_000);
    for _ in 0..7 {
        s.cycle_was_empty();
    }
    assert_eq!(s.current_interval_ms, 200_000);
    s.cycle_was_empty();
    assert_eq!(s.current_interval_ms, 200_000);
}

#[test]
fn results_reset_to_base_and_clear_streak() {
    let mut s = CadenceState::new(60_000, 200_000);
    for _ in 0..5 {
        s.cycle_was_empty();
    }
    assert!(s.current_interval_ms > 60_000);
    assert_eq!(s.empty_streak, 5);
    s.cycle_yielded_results();
    assert_eq!(s.current_interval_ms, 60_000);
    assert_eq!(s.empty_streak, 0);
    s.cycle_yielded_results();
    assert_eq!(s.current_interval_ms, 60_000);
    assert_eq!(s.empty_streak, 0);
}

#[test]
fn forced_floor_reset_after_threshold_plus_one_empty_cycles() {
    let mut s = CadenceState::new(60_000, 200_000);
    for _ in 0..EMPTY_STREAK_THRESHOLD {
        s.cycle_was_empty();
    }
    assert_eq!(s.current_interval_ms, 200_000);
    assert_eq!(s.empty_streak, EMPTY_STREAK_THRESHOLD);
    s.cycle_was_empty();
    assert_eq!(s.current_interval_ms, 60_000);
    assert_eq!(s.empty_streak, 0);
}

#[test]
fn growth_with_tiny_base_keeps_invariant() {
    let mut s = CadenceState::new(1, 3);
    s.cycle_was_empty();
    assert!(s.current_interval_ms >= 1);
    assert!(s.current_interval_ms <= 3);
}
