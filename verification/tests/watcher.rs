use mor_rust_code_gui_manager::app_state::AppMode;
use mor_rust_code_gui_manager::watcher::{
    is_plan_file, is_toc_sync_signal, mode_banner, on_created_path, parser_fault_message,
    toc_sync_signal, CreatedPathAction,
};

#[test]
fn banners() {
    assert_eq!(
        mode_banner(AppMode::Inspect),
        "[SAFETY] Inspect Mode active: watcher will log file changes only."
    );
    assert_eq!(
        mode_banner(AppMode::Automate),
        "[SAFETY] Automate Mode active: approved watcher automations may modify files."
    );
}

#[test]
fn created_paths() {
    assert_eq!(on_created_path("a/b.txt", "a/b.txt", AppMode::Automate), CreatedPathAction::Ignore);
    assert_eq!(
        on_created_path("a/b.rs", "a/b.rs", AppMode::Inspect),
        CreatedPathAction::Report {
            detected: "[DETECTED] New Rust file: a/b.rs".into(),
            blocked: "[INSPECT] Would consider module registration for a/b.rs, but writes are blocked.".into(),
        }
    );
    assert_eq!(
        on_created_path("a/b.rs", "a/b.rs", AppMode::Automate),
        CreatedPathAction::Inject { detected: "[DETECTED] New Rust file: a/b.rs".into() }
    );
}

#[test]
fn plan_signals() {
    assert!(is_plan_file("/w/MOR_PLAN.md"));
    assert!(!is_plan_file("/w/PLAN.md"));
    assert_eq!(toc_sync_signal(), "[SYNC_TOC]");
    assert!(is_toc_sync_signal("[SYNC_TOC]"));
    assert!(!is_toc_sync_signal("[SYNC_TOC] "));
    assert_eq!(parser_fault_message("x.rs", "boom"), "[ERROR] Parser fault on x.rs: boom");
}
