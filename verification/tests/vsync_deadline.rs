use kmd_logic::vsync_deadline::{next, relative_due, PERIOD_100NS};

#[test]
fn initial_arm_is_one_sixtieth_second() {
    assert_eq!(next(10_000_000, 10_000_000), Some(10_166_667));
}

#[test]
fn ordinary_lateness_does_not_accumulate_phase_drift() {
    let fired = 1_166_667;
    assert_eq!(next(fired, fired + 4_000), Some(1_333_334));
}

#[test]
fn missed_ticks_skip_to_one_future_deadline_without_burst() {
    let fired = 1_166_667;
    let now = fired + PERIOD_100NS * 4 + 7;
    let Some(deadline) = next(fired, now) else {
        panic!("a representable deadline must remain armable");
    };
    assert!(deadline > now);
    assert_eq!(deadline, fired + PERIOD_100NS * 5);
}

#[test]
fn relative_due_is_always_negative_and_exact() {
    assert_eq!(relative_due(166_667, 0), -166_667);
    assert_eq!(relative_due(42, 42), -1);
    assert_eq!(relative_due(41, 42), -1);
}

#[test]
fn deadline_overflow_is_terminal_not_an_immediate_rearm() {
    assert_eq!(next(u64::MAX - PERIOD_100NS + 1, 0), None);
    assert_eq!(next(u64::MAX - PERIOD_100NS, u64::MAX), None);
}
