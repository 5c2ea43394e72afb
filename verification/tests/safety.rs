use mor_rust_code_gui_manager::app_state::AppMode;
use mor_rust_code_gui_manager::register_module::{
    build_register_module_preview, ApplyPlan, ModuleVisibility, RegisterModuleRequest,
};
use mor_rust_code_gui_manager::safety::{
    register_apply_step, save_step, swap_step, RegisterApplyStep, SaveStep, SwapStep,
};

fn preview(before: &str) -> mor_rust_code_gui_manager::register_module::RegisterModulePreview {
    let request = RegisterModuleRequest {
        target_file: "src/ui/mod.rs".to_string(),
        module_name: "graph".to_string(),
        visibility: ModuleVisibility::Public,
    };
    build_register_module_preview(request, Some(before.to_string())).unwrap()
}

#[test]
fn register_apply_is_gated() {
    let p = preview("pub mod controls;\n");
    assert_eq!(
        register_apply_step(AppMode::Inspect, Some(p.clone())),
        RegisterApplyStep::Blocked("[BLOCKED] Register Module requires Automate Mode.".to_string())
    );
    assert_eq!(
        register_apply_step(AppMode::Automate, None),
        RegisterApplyStep::Blocked("[BLOCKED] Generate a preview before applying Register Module.".to_string())
    );
    assert_eq!(
        register_apply_step(AppMode::Automate, Some(p)),
        RegisterApplyStep::Apply(ApplyPlan::Write {
            path: "src/ui/mod.rs".to_string(),
            contents: "pub mod controls;\npub mod graph;\n".to_string(),
        })
    );
    let declared = preview("pub mod graph;\n");
    assert_eq!(
        register_apply_step(AppMode::Automate, Some(declared)),
        RegisterApplyStep::Apply(ApplyPlan::AlreadyDeclared(
            "[VERIFIED] Module 'graph' is already declared in src/ui/mod.rs.".to_string()
        ))
    );
}

#[test]
fn save_is_gated() {
    assert_eq!(
        save_step(AppMode::Inspect, "a.rs", "fn main() {}"),
        SaveStep::Blocked("[BLOCKED] Save requires Automate Mode.".to_string())
    );
    assert_eq!(
        save_step(AppMode::Automate, "a.rs", "fn main() {}"),
        SaveStep::Write { path: "a.rs".to_string(), contents: "fn main() {}".to_string() }
    );
}

#[test]
fn swap_is_gated() {
    assert_eq!(
        swap_step(AppMode::Inspect, "a\r\nb\n", "a\n", "c\n"),
        SwapStep::Blocked("[BLOCKED] Block replace requires Automate Mode.".to_string())
    );
    assert_eq!(swap_step(AppMode::Automate, "a\r\nb\n", "a\n", "c\n"), SwapStep::Write("c\nb\n".to_string()));
    assert_eq!(
        swap_step(AppMode::Automate, "a\nb\n", "zzz", "c"),
        SwapStep::NotFound(
            "[WARNING] Find chunk not found in target file. Exact whitespace match required.".to_string()
        )
    );
}

#[test]
fn inspect_never_writes() {
    for mode_input in ["", "mod a;\n", "pub mod graph;\n"] {
        assert!(!matches!(save_step(AppMode::Inspect, "p", mode_input), SaveStep::Write { .. }));
        assert!(!matches!(swap_step(AppMode::Inspect, mode_input, "", ""), SwapStep::Write(_)));
        assert!(!matches!(
            register_apply_step(AppMode::Inspect, Some(preview(mode_input))),
            RegisterApplyStep::Apply(_)
        ));
    }
}
