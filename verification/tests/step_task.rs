use nuedc::step::task::{set_speed, set_zero_point, StepRequests, StepTask, StepTick};

fn sends(set_zero_point: bool, enable: bool, speed: Option<(i16, u8)>) -> StepTick {
    StepTick { set_zero_point, enable, speed }
}

#[test]
fn requests_start_empty() {
    let mut r = StepRequests::new();
    assert_eq!(r.take(), (false, None));
}

#[test]
fn latest_speed_request_wins() {
    let mut r = StepRequests::new();
    set_speed(&mut r, Some((100, 5)));
    set_speed(&mut r, Some((-40, 9)));
    assert_eq!(r.take(), (false, Some(Some((-40, 9)))));
    assert_eq!(r.take(), (false, None));
}

#[test]
fn zero_point_request_is_kept_beside_speed() {
    let mut r = StepRequests::new();
    set_zero_point(&mut r);
    set_speed(&mut r, None);
    assert_eq!(r.take(), (true, Some(None)));
    assert_eq!(r.take(), (false, None));
}

#[test]
fn idle_task_keeps_disabling() {
    let mut t = StepTask::new();
    assert_eq!(t.tick(false, None), sends(false, false, None));
    assert_eq!(t.tick(false, None), sends(false, false, None));
}

#[test]
fn first_speed_enables_once() {
    let mut t = StepTask::new();
    assert_eq!(t.tick(false, Some(Some((1200, 20)))), sends(false, true, Some((1200, 20))));
    assert_eq!(t.tick(false, None), sends(false, false, Some((1200, 20))));
    assert_eq!(t.tick(false, Some(Some((-300, 7)))), sends(false, false, Some((-300, 7))));
}

#[test]
fn disable_request_switches_off_then_on_again() {
    let mut t = StepTask::new();
    t.tick(false, Some(Some((10, 1))));
    assert_eq!(t.tick(false, Some(None)), sends(false, false, None));
    assert_eq!(t.tick(false, None), sends(false, false, None));
    assert_eq!(t.tick(false, Some(Some((10, 1)))), sends(false, true, Some((10, 1))));
}

#[test]
fn zero_point_goes_first() {
    let mut t = StepTask::new();
    assert_eq!(
        t.tick(true, Some(Some((0, 0)))),
        sends(true, true, Some((0, 0)))
    );
    assert_eq!(t.tick(true, None), sends(true, false, Some((0, 0))));
}

#[test]
fn zero_point_while_disabled() {
    let mut t = StepTask::new();
    assert_eq!(t.tick(true, None), sends(true, false, None));
}

use nuedc::step::task::{StartupAction, StepStartup};

#[test]
fn startup_queries_until_ready_then_scales_down_and_disables() {
    let mut s = StepStartup::new();
    assert_eq!(s.step(false), StartupAction::Query);
    assert_eq!(s.step(false), StartupAction::Query);
    assert_eq!(s.step(false), StartupAction::Query);
    assert_eq!(s.step(true), StartupAction::ScaleDown);
    assert_eq!(s.step(false), StartupAction::Disable);
    assert_eq!(s.step(false), StartupAction::Done);
    assert_eq!(s.step(true), StartupAction::Done);
}

#[test]
fn startup_ready_at_once() {
    let mut s = StepStartup::new();
    assert_eq!(s.step(true), StartupAction::ScaleDown);
    assert_eq!(s.step(true), StartupAction::Disable);
    assert_eq!(s.step(true), StartupAction::Done);
}
