use gescher::app_state::{add_ignore_count, is_active, set_active, should_ignore, AppState};
use gescher::logger::{is_enabled, set_enabled, Logger};

#[test]
fn fresh_state_is_active_and_ignores_nothing() {
    let mut s = AppState::new();
    assert!(is_active(&s));
    assert!(!should_ignore(&mut s));
    assert_eq!(s.ignore_count, 0);
}

#[test]
fn ignore_tokens_are_consumed_one_by_one() {
    let mut s = AppState::new();
    add_ignore_count(&mut s, 2);
    add_ignore_count(&mut s, 1);
    assert!(should_ignore(&mut s));
    assert!(should_ignore(&mut s));
    assert!(should_ignore(&mut s));
    assert!(!should_ignore(&mut s));
    assert!(!should_ignore(&mut s));
}

#[test]
fn ignore_counter_wraps_like_an_atomic() {
    let mut s = AppState { active: true, ignore_count: usize::MAX };
    add_ignore_count(&mut s, 2);
    assert_eq!(s.ignore_count, 1);
}

#[test]
fn set_active_switches() {
    let mut s = AppState::new();
    set_active(&mut s, false);
    assert!(!is_active(&s));
    set_active(&mut s, true);
    assert!(is_active(&s));
}

#[test]
fn logger_reads_back_what_was_set() {
    let mut l = Logger::new();
    assert!(is_enabled(&l));
    set_enabled(&mut l, false);
    assert!(!is_enabled(&l));
    set_enabled(&mut l, true);
    assert!(is_enabled(&l));
}
