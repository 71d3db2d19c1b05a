use gescher::processes::sorted_unique;
use gescher::text::{join_strings, str_contains, str_equals};
use gescher::tray::{TrayAction, TrayManager};

fn strings(v: &[&str]) -> Vec<String> {
    v.iter().map(|s| s.to_string()).collect()
}

#[test]
fn process_names_are_sorted_and_unique() {
    let got = sorted_unique(strings(&["zsh", "bash", "code", "bash", "Xorg", "b", "zsh"]));
    assert_eq!(got, strings(&["Xorg", "b", "bash", "code", "zsh"]));
    assert_eq!(sorted_unique(vec![]), Vec::<String>::new());
}

#[test]
fn process_names_follow_the_order_of_str() {
    let input = strings(&["é", "e", "z", "ab", "a", "", "a"]);
    let mut expected = input.clone();
    expected.sort();
    expected.dedup();
    assert_eq!(sorted_unique(input), expected);
}

#[test]
fn sorted_unique_ignores_input_order() {
    let a = sorted_unique(strings(&["c", "a", "b", "a"]));
    let b = sorted_unique(strings(&["b", "c", "a"]));
    assert_eq!(a, b);
}

#[test]
fn tray_menu_actions() {
    let t = TrayManager::new("1".to_string(), "2".to_string());
    assert_eq!(t.update(None), TrayAction::NoAction);
    assert_eq!(t.update(Some("1")), TrayAction::OpenSettings);
    assert_eq!(t.update(Some("2")), TrayAction::Exit);
    assert_eq!(t.update(Some("3")), TrayAction::NoAction);
}

#[test]
fn string_helpers() {
    assert!(str_contains("C:\\apps\\code.exe", "code"));
    assert!(str_contains("abc", ""));
    assert!(!str_contains("ab", "abc"));
    assert!(!str_contains("abc", "cb"));
    assert!(str_equals("héllo", "héllo"));
    assert!(!str_equals("a", "ab"));
    assert_eq!(join_strings(&strings(&["a", "b", "c"]), ", "), "a, b, c");
    assert_eq!(join_strings(&strings(&[]), ", "), "");
}
