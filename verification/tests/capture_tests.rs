use gescher::app_state::{add_ignore_count, AppState};
use gescher::capture::{handle_event, InputEvent, Tracker};

fn p(x: f64, y: f64) -> (u64, u64) {
    (x.to_bits(), y.to_bits())
}

fn mv(x: f64, y: f64) -> InputEvent {
    InputEvent::MouseMove { point: p(x, y), moved_far: true }
}

#[test]
fn right_drag_is_swallowed_and_handed_out_in_order() {
    let mut s = AppState::new();
    let mut t = Tracker::new(16);
    let r = handle_event(&mut s, &mut t, InputEvent::RightPress);
    assert!(!r.pass_through);
    assert!(r.start_timer);
    for i in 0..5 {
        let r = handle_event(&mut s, &mut t, mv(i as f64, 0.0));
        assert!(r.pass_through);
    }
    let r = handle_event(&mut s, &mut t, InputEvent::RightRelease);
    assert!(!r.pass_through);
    let trail = r.finished_trail.expect("a trail");
    let xs: Vec<f64> = trail.iter().map(|(x, _)| f64::from_bits(*x)).collect();
    assert_eq!(xs, vec![0.0, 1.0, 2.0, 3.0, 4.0]);
    assert!(!t.tracking);
    assert_eq!(t.last_point, p(4.0, 0.0));
}

#[test]
fn trail_keeps_only_the_latest_points() {
    let mut s = AppState::new();
    let mut t = Tracker::new(3);
    handle_event(&mut s, &mut t, InputEvent::RightPress);
    for i in 0..6 {
        handle_event(&mut s, &mut t, mv(i as f64, 1.0));
    }
    let trail = handle_event(&mut s, &mut t, InputEvent::RightRelease).finished_trail.unwrap();
    assert_eq!(trail, vec![p(3.0, 1.0), p(4.0, 1.0), p(5.0, 1.0)]);
    // a second release hands out nothing: the drag is over
    let again = handle_event(&mut s, &mut t, InputEvent::RightRelease);
    assert!(again.finished_trail.is_none());
}

#[test]
fn small_moves_and_moves_outside_a_drag_are_not_recorded() {
    let mut s = AppState::new();
    let mut t = Tracker::new(8);
    handle_event(&mut s, &mut t, mv(9.0, 9.0));
    assert_eq!(t.last_point, p(0.0, 0.0));
    handle_event(&mut s, &mut t, InputEvent::RightPress);
    handle_event(&mut s, &mut t, InputEvent::MouseMove { point: p(0.5, 0.0), moved_far: false });
    assert_eq!(t.last_point, p(0.5, 0.0));
    handle_event(&mut s, &mut t, mv(3.0, 0.0));
    let trail = handle_event(&mut s, &mut t, InputEvent::RightRelease).finished_trail.unwrap();
    assert_eq!(trail, vec![p(3.0, 0.0)]);
}

#[test]
fn inactive_capture_lets_the_button_through_but_still_tracks() {
    let mut s = AppState::new();
    s.active = false;
    let mut t = Tracker::new(8);
    let r = handle_event(&mut s, &mut t, InputEvent::RightPress);
    assert!(r.pass_through);
    assert!(t.tracking);
    handle_event(&mut s, &mut t, mv(1.0, 2.0));
    let r = handle_event(&mut s, &mut t, InputEvent::RightRelease);
    assert!(r.pass_through);
    assert_eq!(r.finished_trail, Some(vec![p(1.0, 2.0)]));
}

#[test]
fn ignored_events_pass_untouched() {
    let mut s = AppState::new();
    let mut t = Tracker::new(8);
    add_ignore_count(&mut s, 2);
    let r = handle_event(&mut s, &mut t, InputEvent::RightPress);
    assert!(r.pass_through && !r.start_timer);
    let r = handle_event(&mut s, &mut t, InputEvent::RightRelease);
    assert!(r.pass_through && r.finished_trail.is_none());
    assert!(!t.tracking);
    assert_eq!(s.ignore_count, 0);
    let r = handle_event(&mut s, &mut t, InputEvent::RightPress);
    assert!(!r.pass_through);
}

#[test]
fn zero_capacity_trail_stays_empty() {
    let mut s = AppState::new();
    let mut t = Tracker::new(0);
    handle_event(&mut s, &mut t, InputEvent::RightPress);
    handle_event(&mut s, &mut t, mv(1.0, 1.0));
    let r = handle_event(&mut s, &mut t, InputEvent::RightRelease);
    assert_eq!(r.finished_trail, Some(vec![]));
}

#[test]
fn other_events_pass() {
    let mut s = AppState::new();
    let mut t = Tracker::new(8);
    let r = handle_event(&mut s, &mut t, InputEvent::Other);
    assert!(r.pass_through && !r.start_timer && r.finished_trail.is_none());
}
