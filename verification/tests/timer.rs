use overworld_core::timer::Countdown;

fn at(elapsed: u64, duration: u64, finished: bool, just_finished: bool) -> Countdown {
    Countdown { elapsed, duration, finished, just_finished }
}

#[test]
fn new_countdown_has_not_started() {
    assert_eq!(Countdown::new(10), at(0, 10, false, false));
}

#[test]
fn tick_adds_the_time() {
    let mut c = Countdown::new(10);
    c.tick(4);
    assert_eq!(c, at(4, 10, false, false));
    c.tick(5);
    assert_eq!(c, at(9, 10, false, false));
}

#[test]
fn tick_that_reaches_the_duration_finishes() {
    let mut c = Countdown::new(10);
    c.tick(4);
    c.tick(6);
    assert_eq!(c, at(10, 10, true, true));
}

#[test]
fn tick_stops_at_the_duration() {
    let mut c = Countdown::new(10);
    c.tick(4);
    c.tick(7);
    assert_eq!(c, at(10, 10, true, true));
}

#[test]
fn just_finished_lasts_one_tick() {
    let mut c = Countdown::new(10);
    c.tick(25);
    assert!(c.finished());
    assert!(c.just_finished());
    c.tick(1);
    assert_eq!(c, at(10, 10, true, false));
    c.tick(1);
    assert_eq!(c, at(10, 10, true, false));
}

#[test]
fn tick_of_no_time_changes_nothing_before_the_end() {
    let mut c = at(3, 10, false, false);
    c.tick(0);
    assert_eq!(c, at(3, 10, false, false));
}

#[test]
fn countdown_of_no_duration_finishes_with_the_first_tick() {
    let mut c = Countdown::new(0);
    assert!(!c.finished());
    c.tick(0);
    assert_eq!(c, at(0, 0, true, true));
}

#[test]
fn tick_copes_with_the_longest_times() {
    let mut c = at(u64::MAX - 1, u64::MAX, false, false);
    c.tick(u64::MAX);
    assert_eq!(c, at(u64::MAX, u64::MAX, true, true));
    let mut d = Countdown::new(u64::MAX);
    d.tick(u64::MAX - 1);
    assert_eq!(d, at(u64::MAX - 1, u64::MAX, false, false));
}

#[test]
fn unfinished_countdown_past_a_shortened_duration_finishes_with_the_next_tick() {
    let mut c = Countdown::new(10);
    c.tick(8);
    c.set_duration(5);
    assert_eq!(c, at(8, 5, false, false));
    c.tick(1);
    assert_eq!(c, at(5, 5, true, true));
}

#[test]
fn reset_rewinds_and_keeps_the_duration() {
    let mut c = Countdown::new(10);
    c.tick(12);
    c.reset();
    assert_eq!(c, at(0, 10, false, false));
}

#[test]
fn set_duration_changes_only_the_duration() {
    let mut c = at(3, 10, false, false);
    c.set_duration(20);
    assert_eq!(c, at(3, 20, false, false));
}

#[test]
fn half_elapsed_turns_at_half_time() {
    assert!(!at(4, 10, false, false).half_elapsed());
    assert!(at(5, 10, false, false).half_elapsed());
    assert!(!at(5, 11, false, false).half_elapsed());
    assert!(at(6, 11, false, false).half_elapsed());
    assert!(at(u64::MAX, u64::MAX, true, false).half_elapsed());
    assert!(at(0, 0, false, false).half_elapsed());
}
