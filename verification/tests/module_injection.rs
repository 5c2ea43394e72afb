use mor_rust_code_gui_manager::module_injection::{
    inject_target, plan_injection, InjectAction, InjectError, InjectTarget,
};

#[test]
fn injection_targets() {
    assert_eq!(
        inject_target("src/ui/controls.rs"),
        Ok(InjectTarget::ModRs { mod_rs: "src/ui/mod.rs".into(), stem: "controls".into() })
    );
    assert_eq!(
        inject_target("src/main.rs"),
        Ok(InjectTarget::Skip("[SKIP] Bypassing root structural file: main.rs".into()))
    );
    assert_eq!(inject_target("/"), Err(InjectError::InvalidFileName));
    assert_eq!(
        inject_target("x.rs"),
        Ok(InjectTarget::ModRs { mod_rs: "mod.rs".into(), stem: "x".into() })
    );
}

#[test]
fn injection_plans() {
    assert_eq!(
        plan_injection("controls", None),
        Ok(InjectAction::Write {
            contents: "pub mod controls;\n".into(),
            message: "[ARCHIVE] Generated new mod.rs and injected: pub mod controls;".into(),
        })
    );
    assert_eq!(
        plan_injection("controls", Some("pub mod graph;\n\n".into())),
        Ok(InjectAction::Write {
            contents: "pub mod graph;\npub mod controls;\n".into(),
            message: "[UPDATE] Appended 'pub mod controls;' to existing hierarchy.".into(),
        })
    );
    assert_eq!(
        plan_injection("graph", Some("pub mod graph;\n".into())),
        Ok(InjectAction::Report("[VERIFIED] Module 'graph' is already cataloged.".into()))
    );
    assert!(matches!(plan_injection("x", Some("mod {".into())), Err(InjectError::Parse(_))));
    assert_eq!(InjectError::InvalidFileName.message(), "Invalid file nomenclature");
    assert_eq!(InjectError::NoParentDirectory.message(), "File possesses no parent directory");
}
