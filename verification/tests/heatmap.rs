use mor_rust_code_gui_manager::heatmap::{
    analyze_rust_source, is_rust_source, scan_scope_root, scope_root_for, score_totals, label_for_path, pressure_label, should_ignore_dir,
    stroke_for_score, stroke_width_for_score, FileMetrics,
};

#[test]
fn measuring_source() {
    let src = "use std::fs;\npub use a::b;\n// struct Hidden;\npub struct A;\nstruct B;\nenum C {}\npub(crate) async fn d() {}\nasync fn e() {}\nimpl A {}\nfn f() {}\n";
    let m = analyze_rust_source(src);
    assert_eq!(
        m,
        FileMetrics { lines: 10, structs: 2, enums: 1, functions: 3, impl_blocks: 1, uses: 2, score: 16 + 8 + 12 + 5 + 2 }
    );
    let long = "x\n".repeat(45);
    assert_eq!(analyze_rust_source(&long).score, 2);
    assert_eq!(analyze_rust_source("").lines, 0);
}

#[test]
fn pressure_tiers() {
    assert_eq!(pressure_label(70), "High pressure");
    assert_eq!(pressure_label(69), "Medium pressure");
    assert_eq!(pressure_label(35), "Medium pressure");
    assert_eq!(pressure_label(34), "Low pressure");
    assert_eq!(stroke_for_score(100), "#bc8d6b");
    assert_eq!(stroke_for_score(40), "#9d72ff");
    assert_eq!(stroke_for_score(0), "#6f4bb3");
    assert_eq!(stroke_width_for_score(70), "6");
    assert_eq!(stroke_width_for_score(35), "4");
    assert_eq!(stroke_width_for_score(1), "2.5");
}

#[test]
fn heatmap_paths() {
    assert!(should_ignore_dir("p/target"));
    assert!(should_ignore_dir("p/__pycache__"));
    assert!(!should_ignore_dir("p/.DS_Store"));
    assert!(!should_ignore_dir("p/src"));
    assert!(is_rust_source("src/a.rs"));
    assert!(!is_rust_source("src/a.rsx"));
    assert!(!is_rust_source("rs"));
    assert_eq!(label_for_path("src/a.rs"), "a.rs");
    assert_eq!(label_for_path("/"), "unknown.rs");
}

#[test]
fn scope_roots() {
    assert_eq!(scope_root_for("/proj", true), "/proj/src");
    assert_eq!(scope_root_for("/proj", false), "/proj");
    assert_eq!(scope_root_for("proj/", true), "proj/src");
    let missing = "/definitely/not/a/real/folder/for/this/test";
    assert_eq!(scan_scope_root(missing), missing);
}

fn scored(score: usize) -> FileMetrics {
    FileMetrics { lines: 0, structs: 0, enums: 0, functions: 0, impl_blocks: 0, uses: 0, score }
}

#[test]
fn status_totals() {
    assert_eq!(score_totals(&vec![]), Some((0, 0)));
    assert_eq!(score_totals(&vec![scored(12), scored(70), scored(5)]), Some((87, 70)));
    assert_eq!(score_totals(&vec![scored(usize::MAX), scored(1)]), None);
    assert_eq!(score_totals(&vec![scored(usize::MAX), scored(0)]), Some((usize::MAX, usize::MAX)));
}
