use mor_rust_code_gui_manager::register_module::{
    append_declaration, applied_register_message, build_register_module_preview,
    choose_target_file, find_src_root_candidate, module_name_from_file_path,
    plan_apply_register_module, sibling_mod_file, validate_module_name, ApplyPlan,
    ModuleVisibility, RegisterModuleError, RegisterModulePreview, RegisterModuleRequest,
};

fn request(target: &str, name: &str, visibility: ModuleVisibility) -> RegisterModuleRequest {
    RegisterModuleRequest {
        target_file: target.to_string(),
        module_name: name.to_string(),
        visibility,
    }
}

#[test]
fn visibility_prefixes_and_labels() {
    assert_eq!(ModuleVisibility::Private.declaration_prefix(), "mod");
    assert_eq!(ModuleVisibility::Public.declaration_prefix(), "pub mod");
    assert_eq!(ModuleVisibility::PublicCrate.declaration_prefix(), "pub(crate) mod");
    for v in [ModuleVisibility::Private, ModuleVisibility::Public, ModuleVisibility::PublicCrate] {
        assert_eq!(v.label(), v.declaration_prefix());
    }
}

#[test]
fn module_names_from_paths() {
    assert_eq!(module_name_from_file_path("src/ui/controls.rs"), Ok("controls".to_string()));
    assert_eq!(module_name_from_file_path("src/archive.tar.gz"), Ok("archive.tar".to_string()));
    assert_eq!(
        module_name_from_file_path("src/lib.rs"),
        Err(RegisterModuleError::CrateRootFile("lib".to_string()))
    );
    assert_eq!(
        module_name_from_file_path("src/ui/mod.rs"),
        Err(RegisterModuleError::CrateRootFile("mod".to_string()))
    );
    assert_eq!(module_name_from_file_path("/"), Err(RegisterModuleError::NoModuleName));
    assert_eq!(module_name_from_file_path(""), Err(RegisterModuleError::NoModuleName));
}

#[test]
fn error_messages() {
    assert_eq!(
        RegisterModuleError::NoModuleName.message(),
        "Could not derive module name from selected file path"
    );
    assert_eq!(
        RegisterModuleError::CrateRootFile("main".to_string()).message(),
        "Selected file 'main' is a crate/module root, not a child module file"
    );
    assert_eq!(RegisterModuleError::EmptyModuleName.message(), "Module name cannot be empty");
    assert_eq!(
        RegisterModuleError::InvalidStart.message(),
        "Module name must start with a letter or underscore"
    );
    assert_eq!(
        RegisterModuleError::InvalidChar("a-b".to_string(), '-').message(),
        "Module name 'a-b' contains invalid character '-'"
    );
    assert_eq!(
        RegisterModuleError::ReadFailed("x/mod.rs".to_string()).message(),
        "Could not read target file x/mod.rs"
    );
    assert_eq!(RegisterModuleError::WriteFailed("y.rs".to_string()).message(), "Could not write y.rs");
}

#[test]
fn validating_names() {
    assert_eq!(validate_module_name("graph"), Ok(()));
    assert_eq!(validate_module_name("_private2"), Ok(()));
    assert_eq!(validate_module_name(""), Err(RegisterModuleError::EmptyModuleName));
    assert_eq!(validate_module_name("2d"), Err(RegisterModuleError::InvalidStart));
    assert_eq!(
        validate_module_name("my-mod!"),
        Err(RegisterModuleError::InvalidChar("my-mod!".to_string(), '-'))
    );
    assert_eq!(
        validate_module_name("caf\u{e9}"),
        Err(RegisterModuleError::InvalidChar("caf\u{e9}".to_string(), '\u{e9}'))
    );
}

#[test]
fn appending_declarations() {
    assert_eq!(append_declaration("pub mod a;\n\n  ", "pub mod b;\n"), "pub mod a;\npub mod b;\n");
    assert_eq!(append_declaration("", "mod b;\n"), "mod b;\n");
    assert_eq!(append_declaration(" \n\t", "mod b;\n"), "mod b;\n");
}

#[test]
fn preview_of_new_module() {
    let p = build_register_module_preview(
        request("src/ui/mod.rs", "  graph ", ModuleVisibility::Public),
        Some("pub mod controls;\n".to_string()),
    )
    .unwrap();
    assert_eq!(p.module_name, "graph");
    assert_eq!(p.declaration, "pub mod graph;\n");
    assert!(!p.already_declared);
    assert_eq!(p.after, "pub mod controls;\npub mod graph;\n");
    assert_eq!(p.preview_diff, "--- src/ui/mod.rs\n+++ src/ui/mod.rs\n@@\n+ pub mod graph;\n");
    assert_eq!(p.summary(), "[PREVIEW] Would add 'pub mod graph;' to src/ui/mod.rs.");
    match plan_apply_register_module(&p) {
        ApplyPlan::Write { path, contents } => {
            assert_eq!(path, "src/ui/mod.rs");
            assert_eq!(contents, "pub mod controls;\npub mod graph;\n");
        }
        other => panic!("unexpected plan {:?}", other),
    }
    assert_eq!(applied_register_message(&p), "[UPDATE] Added 'pub mod graph;' to src/ui/mod.rs.");
}

#[test]
fn preview_of_declared_module() {
    let before = "mod a;\npub(crate) mod graph;\n".to_string();
    let p = build_register_module_preview(
        request("src/lib.rs", "graph", ModuleVisibility::Private),
        Some(before.clone()),
    )
    .unwrap();
    assert!(p.already_declared);
    assert_eq!(p.declaration, "mod graph;\n");
    assert_eq!(p.after, before);
    assert_eq!(
        p.preview_diff,
        "No changes.\n\nsrc/lib.rs already contains a module declaration for 'graph'."
    );
    assert_eq!(p.summary(), "[PREVIEW] Module 'graph' is already declared in src/lib.rs.");
    assert_eq!(
        plan_apply_register_module(&p),
        ApplyPlan::AlreadyDeclared("[VERIFIED] Module 'graph' is already declared in src/lib.rs.".to_string())
    );
}

#[test]
fn inline_module_counts_as_declared() {
    let p = build_register_module_preview(
        request("src/lib.rs", "tests", ModuleVisibility::PublicCrate),
        Some("mod tests { fn t() {} }\n".to_string()),
    )
    .unwrap();
    assert!(p.already_declared);
}

#[test]
fn preview_errors() {
    assert_eq!(
        build_register_module_preview(request("src/lib.rs", "  ", ModuleVisibility::Public), None),
        Err(RegisterModuleError::EmptyModuleName)
    );
    assert_eq!(
        build_register_module_preview(request("src/lib.rs", "ok", ModuleVisibility::Public), None),
        Err(RegisterModuleError::ReadFailed("src/lib.rs".to_string()))
    );
    let r = build_register_module_preview(
        request("src/lib.rs", "ok", ModuleVisibility::Public),
        Some("fn broken( {".to_string()),
    );
    assert!(matches!(r, Err(RegisterModuleError::ParseFailed(_))));
}

#[test]
fn src_root_candidates() {
    assert_eq!(find_src_root_candidate("proj/src/ui/graph/x.rs", "lib.rs"), "proj/src/lib.rs");
    assert_eq!(find_src_root_candidate("/abs/src/main.rs", "main.rs"), "/abs/src/main.rs");
    assert_eq!(find_src_root_candidate("proj/other/x.rs", "lib.rs"), "proj/other/lib.rs");
    assert_eq!(find_src_root_candidate("x.rs", "lib.rs"), "lib.rs");
    assert_eq!(sibling_mod_file("a/b/c.rs"), "a/b/mod.rs");
    assert_eq!(sibling_mod_file("c.rs"), "mod.rs");
}

#[test]
fn choosing_target_files() {
    let sel = "proj/src/ui/view.rs";
    assert_eq!(choose_target_file(sel, true, true, true), "proj/src/ui/mod.rs");
    assert_eq!(choose_target_file(sel, false, true, true), "proj/src/lib.rs");
    assert_eq!(choose_target_file(sel, false, false, true), "proj/src/main.rs");
    assert_eq!(choose_target_file(sel, false, false, false), "proj/src/ui/mod.rs");
}

#[test]
fn preview_struct_is_plain_data() {
    let p = RegisterModulePreview {
        target_file: "t".into(),
        module_name: "m".into(),
        declaration: "  mod m;\n".into(),
        already_declared: false,
        before: String::new(),
        after: String::new(),
        preview_diff: String::new(),
    };
    assert_eq!(p.summary(), "[PREVIEW] Would add 'mod m;' to t.");
}

#[test]
fn visibility_from_label() {
    assert_eq!(ModuleVisibility::from_label("mod"), ModuleVisibility::Private);
    assert_eq!(ModuleVisibility::from_label("pub(crate) mod"), ModuleVisibility::PublicCrate);
    assert_eq!(ModuleVisibility::from_label("pub mod"), ModuleVisibility::Public);
    assert_eq!(ModuleVisibility::from_label("something else"), ModuleVisibility::Public);
    for v in [ModuleVisibility::Private, ModuleVisibility::Public, ModuleVisibility::PublicCrate] {
        assert_eq!(ModuleVisibility::from_label(v.label()), v);
    }
}
