use mor_rust_code_gui_manager::app_state::{depth_label, toggled_tab, ActiveSidebarTab, AppMode, ALL_DEPTHS};

#[test]
fn mode_flags_and_texts() {
    assert!(AppMode::Inspect.is_inspect());
    assert!(!AppMode::Inspect.is_automate());
    assert!(AppMode::Automate.is_automate());
    assert!(!AppMode::Automate.is_inspect());
    assert_eq!(AppMode::Inspect.label(), "Inspect Mode");
    assert_eq!(AppMode::Automate.label(), "Automate Mode");
    assert_eq!(
        AppMode::Inspect.description(),
        "Read-only: scan, visualize, and inspect without modifying files."
    );
    assert_eq!(
        AppMode::Automate.description(),
        "Automation enabled: approved actions may modify project files."
    );
}

#[test]
fn toggling_tabs() {
    assert_eq!(toggled_tab(ActiveSidebarTab::QuestLog, ActiveSidebarTab::QuestLog), ActiveSidebarTab::Closed);
    assert_eq!(toggled_tab(ActiveSidebarTab::Closed, ActiveSidebarTab::SyncLog), ActiveSidebarTab::SyncLog);
    assert_eq!(
        toggled_tab(ActiveSidebarTab::ControlPanel, ActiveSidebarTab::PluginHub),
        ActiveSidebarTab::PluginHub
    );
    let once = toggled_tab(ActiveSidebarTab::Automations, ActiveSidebarTab::Automations);
    assert_eq!(toggled_tab(once, ActiveSidebarTab::Automations), ActiveSidebarTab::Automations);
}

#[test]
fn depth_labels() {
    assert_eq!(depth_label(3), "3");
    assert_eq!(depth_label(10), "10");
    assert_eq!(depth_label(998), "998");
    assert_eq!(depth_label(ALL_DEPTHS), "All");
    assert_eq!(depth_label(5000), "All");
    assert_eq!(depth_label(0), "0");
    assert_eq!(depth_label(-7), "-7");
    assert_eq!(depth_label(i32::MIN), "-2147483648");
}
