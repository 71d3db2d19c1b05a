use gescher::actions::{key_from_name, key_sequence, matching_gestures, parse_keys, trim_str, Key, KeyStep};
use gescher::config::{default_language, Config, Gesture};

#[test]
fn key_names() {
    assert_eq!(key_from_name("ctrl"), Some(Key::ControlLeft));
    assert_eq!(key_from_name("control"), Some(Key::ControlLeft));
    assert_eq!(key_from_name("cmd"), Some(Key::MetaLeft));
    assert_eq!(key_from_name("return"), Some(Key::Return));
    assert_eq!(key_from_name("del"), Some(Key::Delete));
    assert_eq!(key_from_name("escape"), Some(Key::Escape));
    assert_eq!(key_from_name("left"), Some(Key::LeftArrow));
    assert_eq!(key_from_name("f12"), Some(Key::F12));
    assert_eq!(key_from_name("q"), Some(Key::KeyQ));
    assert_eq!(key_from_name("7"), Some(Key::Num7));
    assert_eq!(key_from_name("f13"), None);
    assert_eq!(key_from_name("é"), None);
    assert_eq!(key_from_name(""), None);
    assert_eq!(key_from_name("Ctrl"), None);
}

#[test]
fn chords_are_trimmed_and_lowered() {
    assert_eq!(
        parse_keys(" CTRL + Shift+t "),
        vec![Key::ControlLeft, Key::ShiftLeft, Key::KeyT]
    );
    assert_eq!(parse_keys("Alt+\u{3000}F4\t"), vec![Key::Alt, Key::F4]);
}

#[test]
fn unknown_and_empty_pieces_are_skipped() {
    assert_eq!(parse_keys(""), vec![]);
    assert_eq!(parse_keys("++a"), vec![Key::KeyA]);
    assert_eq!(parse_keys("hyper+Z+"), vec![Key::KeyZ]);
}

#[test]
fn chord_is_pressed_in_order_and_released_in_reverse() {
    let keys = vec![Key::ControlLeft, Key::KeyT];
    assert_eq!(
        key_sequence(&keys, None, None),
        vec![
            KeyStep::Press(Key::ControlLeft),
            KeyStep::Press(Key::KeyT),
            KeyStep::Release(Key::KeyT),
            KeyStep::Release(Key::ControlLeft),
        ]
    );
}

#[test]
fn repeated_chord_pauses_between_rounds() {
    let keys = vec![Key::Tab];
    assert_eq!(
        key_sequence(&keys, Some(3), Some(50)),
        vec![
            KeyStep::Press(Key::Tab),
            KeyStep::Release(Key::Tab),
            KeyStep::Sleep(50),
            KeyStep::Press(Key::Tab),
            KeyStep::Release(Key::Tab),
            KeyStep::Sleep(50),
            KeyStep::Press(Key::Tab),
            KeyStep::Release(Key::Tab),
        ]
    );
    assert_eq!(key_sequence(&keys, Some(2), Some(0)).len(), 4);
    assert_eq!(key_sequence(&keys, Some(0), Some(10)).len(), 2);
    assert_eq!(key_sequence(&vec![], Some(3), Some(10)), vec![KeyStep::Sleep(10), KeyStep::Sleep(10)]);
}

fn gesture(trigger: &str, enabled: bool, target: Option<&str>) -> Gesture {
    Gesture {
        trigger: trigger.to_string(),
        enabled,
        target_bin: target.map(|t| t.to_string()),
        command: None,
        text: None,
        keys: None,
        repeat_count: None,
        repeat_interval: None,
        control: None,
    }
}

#[test]
fn matching_gestures_respects_trigger_enabled_and_target() {
    let gs = vec![
        gesture("UP", true, None),
        gesture("UP", false, None),
        gesture("DOWN", true, None),
        gesture("UP", true, Some("firefox")),
        gesture("UP", true, Some("code.exe")),
    ];
    assert_eq!(matching_gestures(&gs, "UP", Some("/usr/bin/firefox")), vec![0, 3]);
    assert_eq!(matching_gestures(&gs, "UP", None), vec![0]);
    assert_eq!(matching_gestures(&gs, "UP", Some("C:\\Tools\\code.exe")), vec![0, 4]);
    assert_eq!(matching_gestures(&gs, "DOWN", None), vec![2]);
    assert_eq!(matching_gestures(&gs, "LEFT", None), Vec::<usize>::new());
    assert_eq!(matching_gestures(&gs, "up", None), Vec::<usize>::new());
}

#[test]
fn empty_target_matches_any_known_application() {
    let gs = vec![gesture("RIGHT", true, Some(""))];
    assert_eq!(matching_gestures(&gs, "RIGHT", Some("x")), vec![0]);
    assert_eq!(matching_gestures(&gs, "RIGHT", None), Vec::<usize>::new());
}

#[test]
fn default_settings() {
    let c = Config::default_settings();
    assert_eq!(c.buffer_size(), 1024);
    assert_eq!(c.window_size(), 10);
    assert_eq!(c.sample_rate(), 0);
    assert!(!c.allow_diagonal());
    assert!(c.debug());
    assert_eq!(c.language, "en");
    assert!(c.gestures().is_empty());
    assert_eq!(default_language(), "en");
}

#[test]
fn trim_removes_unicode_white_space_at_both_ends() {
    assert_eq!(trim_str("  ctrl\t"), "ctrl");
    assert_eq!(trim_str("\u{3000}\u{2028}a b\u{85}"), "a b");
    assert_eq!(trim_str(" \n "), "");
    assert_eq!(trim_str(""), "");
    assert_eq!(trim_str("x"), "x");
    for s in ["  a  ", "\u{a0}z\u{205f}", "\u{200b}k\u{200b}", " mixed\u{1680}case "] {
        assert_eq!(trim_str(s), s.trim());
    }
}

#[test]
fn chords_ignore_ascii_case() {
    for chord in ["Ctrl+Shift+T", "CTRL+SHIFT+t", "ctrl+shift+t", "cTrL + sHiFt + T"] {
        assert_eq!(parse_keys(chord), vec![Key::ControlLeft, Key::ShiftLeft, Key::KeyT]);
    }
    assert_eq!(parse_keys("ESC+F5"), vec![Key::Escape, Key::F5]);
}
