use mor_rust_code_gui_manager::navigation::{can_go_up, NavHistory};

#[test]
fn history_moves() {
    let mut h = NavHistory::new();
    h.go_root("/w".into());
    h.navigate_to("/w/src".into(), true, true);
    assert_eq!(h.current, "/w/src");
    assert_eq!(h.back, vec!["/w"]);
    h.navigate_to("/w/src/".into(), true, true);
    assert_eq!(h.back, vec!["/w"]);
    h.navigate_to("/w/missing".into(), false, true);
    assert_eq!(h.current, "/w/src/");
    h.go_back();
    assert_eq!(h.current, "/w");
    assert_eq!(h.forward, vec!["/w/src/"]);
    h.go_forward();
    assert_eq!(h.current, "/w/src/");
    assert!(h.forward.is_empty());
    h.go_up("/w".into(), true);
    assert_eq!(h.current, "/w");
    assert_eq!(h.back, vec!["/w", "/w/src/"]);
    h.go_root("/w".into());
    assert!(h.back.is_empty() && h.forward.is_empty());
}

#[test]
fn navigating_from_a_vanished_folder_keeps_history() {
    let mut h = NavHistory::new();
    h.go_root("/gone".into());
    h.navigate_to("/w".into(), true, false);
    assert_eq!(h.current, "/w");
    assert!(h.back.is_empty());
}

#[test]
fn going_up() {
    assert!(can_go_up("/proj/src", "/proj"));
    assert!(!can_go_up("/proj", "/proj"));
    assert!(!can_go_up("/proj/", "/proj"));
    assert!(!can_go_up("/", "/proj"));
    assert!(can_go_up("proj", "/proj"));
}
