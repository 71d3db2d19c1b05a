use gescher::app_state::AppState;
use gescher::direction::Direction;
use gescher::gesture::{
    conclude_gesture, detect_directions, gesture_label, start_recording, stop_recording,
    GestureOutcome, Recorder, Segment,
};

fn still() -> Segment {
    Segment { moving: false, direction: Direction::undefined(), turned: false }
}

fn mv(d: Direction) -> Segment {
    Segment { moving: true, direction: d, turned: false }
}

fn turn(d: Direction) -> Segment {
    Segment { moving: true, direction: d, turned: true }
}

#[test]
fn no_motion_gives_no_direction() {
    let segs = vec![still(); 10];
    assert!(detect_directions(&segs, 3).is_empty());
    assert!(detect_directions(&segs, 0).is_empty());
}

#[test]
fn periodic_check_adds_changed_directions() {
    // window 2: indices 0, 2, 4, ... are checked
    let segs = vec![
        mv(Direction::right()),
        mv(Direction::right()),
        mv(Direction::right()),
        mv(Direction::up()),
        mv(Direction::up()),
        mv(Direction::up()),
    ];
    let dirs = detect_directions(&segs, 2);
    assert_eq!(dirs, vec![Direction::right(), Direction::up()]);
}

#[test]
fn same_direction_is_not_repeated() {
    let segs = vec![mv(Direction::left()); 9];
    assert_eq!(detect_directions(&segs, 3), vec![Direction::left()]);
}

#[test]
fn overlapping_direction_is_not_added() {
    let ur = Direction::up().union(Direction::right());
    let segs = vec![mv(Direction::up()), still(), mv(ur), still(), mv(Direction::down())];
    // UP|RIGHT shares UP with UP, so only DOWN follows
    assert_eq!(detect_directions(&segs, 2), vec![Direction::up(), Direction::down()]);
}

#[test]
fn sharp_turn_adds_a_corner_between_checks() {
    // window 4: only index 0 and 4 are periodic; the turn at index 5 is a corner
    let segs = vec![
        mv(Direction::down()),
        mv(Direction::down()),
        mv(Direction::down()),
        mv(Direction::down()),
        mv(Direction::down()),
        turn(Direction::right()),
    ];
    assert_eq!(detect_directions(&segs, 4), vec![Direction::down(), Direction::right()]);
}

#[test]
fn corner_too_close_to_the_start_is_ignored() {
    // the corner must come more than `window` segments after the last one (index 0)
    let segs = vec![mv(Direction::down()), turn(Direction::right()), mv(Direction::right())];
    assert_eq!(detect_directions(&segs, 4), vec![Direction::down()]);
}

#[test]
fn undefined_directions_are_skipped() {
    let segs = vec![mv(Direction::undefined()), mv(Direction::undefined()), mv(Direction::left())];
    assert_eq!(detect_directions(&segs, 2), vec![Direction::left()]);
}

#[test]
fn gesture_text_joins_labels() {
    assert_eq!(gesture_label(&vec![]), "");
    assert_eq!(gesture_label(&vec![Direction::up()]), "UP");
    assert_eq!(
        gesture_label(&vec![Direction::up(), Direction::left(), Direction::from_flags(0b1010)]),
        "UP -> LEFT -> DOWN | RIGHT"
    );
}

#[test]
fn short_trail_is_replayed_as_a_click() {
    let mut s = AppState::new();
    let mut r = Recorder::new();
    let segs = vec![mv(Direction::up()); 5];
    let out = conclude_gesture(&mut s, &mut r, 19, 10, &segs);
    assert!(matches!(out, GestureOutcome::ReplayClick));
    assert_eq!(s.ignore_count, 2);
}

#[test]
fn trail_without_direction_is_replayed_as_a_click() {
    let mut s = AppState::new();
    let mut r = Recorder::new();
    let segs = vec![still(); 10];
    let out = conclude_gesture(&mut s, &mut r, 20, 10, &segs);
    assert!(matches!(out, GestureOutcome::ReplayClick));
    assert_eq!(s.ignore_count, 2);
}

#[test]
fn gesture_is_executed_when_not_recording() {
    let mut s = AppState::new();
    let mut r = Recorder::new();
    let segs = vec![mv(Direction::right()); 10];
    match conclude_gesture(&mut s, &mut r, 20, 10, &segs) {
        GestureOutcome::Execute(text) => assert_eq!(text, "RIGHT"),
        _ => panic!("expected a gesture to execute"),
    }
    assert_eq!(s.ignore_count, 0);
    assert!(r.recorded.is_none());
}

#[test]
fn stop_without_a_gesture_is_an_error() {
    let mut r = Recorder::new();
    start_recording(&mut r);
    assert_eq!(stop_recording(&mut r), Err("No gesture recorded".to_string()));
    assert!(!r.recording);
}

#[test]
fn recorded_gesture_is_handed_out_on_stop() {
    let mut s = AppState::new();
    let mut r = Recorder::new();
    start_recording(&mut r);
    let segs = vec![mv(Direction::down()), still(), mv(Direction::left()), still()];
    match conclude_gesture(&mut s, &mut r, 8, 2, &segs) {
        GestureOutcome::Recorded(text) => assert_eq!(text, "DOWN -> LEFT"),
        _ => panic!("expected the gesture to be recorded"),
    }
    assert_eq!(stop_recording(&mut r), Ok("DOWN -> LEFT".to_string()));
    // the recording is kept after stopping
    assert_eq!(stop_recording(&mut r), Ok("DOWN -> LEFT".to_string()));
    start_recording(&mut r);
    assert!(r.recorded.is_none());
}
