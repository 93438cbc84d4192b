use nuedc::controller::acquire::{Controller, Phase, TrackOutcome};
use nuedc::controller::yaw::option_output;
use nuedc::vision::filter::{OFFSET_X, OFFSET_Y};

const NO_TARGET: (i16, i16) = (OFFSET_X, OFFSET_Y);

#[test]
fn searches_without_a_target() {
    let mut c = Controller::new(false);
    assert_eq!(c.plan(NO_TARGET), Phase::Search);
    assert!(!c.search(false));
    assert!(!c.is_finished());
}

#[test]
fn refocuses_once_per_tracking_stretch() {
    let mut c = Controller::new(false);
    assert_eq!(c.plan((10, 20)), Phase::Track { refocus: true });
    assert_eq!(c.track(false), TrackOutcome::Continue);
    assert_eq!(c.plan((10, 20)), Phase::Track { refocus: false });
    assert_eq!(c.track(false), TrackOutcome::Continue);
    assert_eq!(c.plan(NO_TARGET), Phase::Search);
    assert!(!c.search(false));
    assert_eq!(c.plan((1, 1)), Phase::Track { refocus: true });
}

#[test]
fn eleventh_aligned_tick_locks_and_stops() {
    let mut c = Controller::new(false);
    for i in 0..10 {
        assert_eq!(c.plan((1, 1)), Phase::Track { refocus: i == 0 });
        assert_eq!(c.track(true), TrackOutcome::Continue);
    }
    c.plan((1, 1));
    assert_eq!(c.track(true), TrackOutcome::LockAndStop);
    assert!(c.is_finished());
    assert_eq!(c.plan((1, 1)), Phase::Done);
    c.settle();
    assert_eq!(c.plan(NO_TARGET), Phase::Done);
}

#[test]
fn misaligned_tick_restarts_the_streak() {
    let mut c = Controller::new(false);
    for _ in 0..10 {
        c.plan((1, 1));
        assert_eq!(c.track(true), TrackOutcome::Continue);
    }
    c.plan((1, 1));
    assert_eq!(c.track(false), TrackOutcome::Continue);
    for _ in 0..10 {
        c.plan((1, 1));
        assert_eq!(c.track(true), TrackOutcome::Continue);
    }
    c.plan((1, 1));
    assert_eq!(c.track(true), TrackOutcome::LockAndStop);
}

#[test]
fn held_lock_keeps_tracking() {
    let mut c = Controller::new(true);
    for _ in 0..10 {
        c.plan((1, 1));
        assert_eq!(c.track(true), TrackOutcome::Continue);
    }
    c.plan((1, 1));
    assert_eq!(c.track(true), TrackOutcome::LockAndHold);
    assert_eq!(c.plan(NO_TARGET), Phase::Track { refocus: false });
    assert_eq!(c.track(true), TrackOutcome::LockAndHold);
    assert_eq!(c.plan(NO_TARGET), Phase::Track { refocus: false });
    assert_eq!(c.track(false), TrackOutcome::Continue);
    for _ in 0..300 {
        assert!(matches!(c.plan(NO_TARGET), Phase::Track { .. }));
        c.track(true);
        assert!(!c.is_finished());
    }
}

#[test]
fn exhausted_search_finishes() {
    let mut c = Controller::new(true);
    assert_eq!(c.plan(NO_TARGET), Phase::Search);
    assert!(c.search(true));
    assert!(c.is_finished());
    assert_eq!(c.plan((5, 5)), Phase::Done);
}

#[test]
fn option_output_hands_back_the_previous_speed() {
    let mut last = 0i16;
    assert_eq!(option_output(&mut last, Some(300)), 0);
    assert_eq!(option_output(&mut last, None), 300);
    assert_eq!(option_output(&mut last, Some(300)), 300);
    assert_eq!(option_output(&mut last, Some(-20)), 300);
    assert_eq!(last, -20);
}
