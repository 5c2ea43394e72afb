use mor_rust_code_gui_manager::file_manager::{
    arrange_children, breadcrumbs_for, is_placeholder_workspace, label_for_path,
    relative_display_path, should_ignore, sort_entries, ChildEntry,
};

fn entry(path: &str, is_dir: bool) -> ChildEntry {
    ChildEntry { path: path.to_string(), is_dir, is_file: !is_dir }
}

#[test]
fn placeholders() {
    assert!(is_placeholder_workspace(""));
    assert!(is_placeholder_workspace("  \t"));
    assert!(is_placeholder_workspace("Awaiting filesystem initialization..."));
    assert!(!is_placeholder_workspace("/home/me"));
}

#[test]
fn ignored_and_labels() {
    assert!(should_ignore("proj/target"));
    assert!(should_ignore("proj/.DS_Store"));
    assert!(should_ignore("node_modules/"));
    assert!(!should_ignore("proj/src"));
    assert!(!should_ignore("/"));
    assert_eq!(label_for_path("proj/src/lib.rs"), "lib.rs");
    assert_eq!(label_for_path("/"), "project root");
    assert_eq!(label_for_path(".."), "project root");
}

#[test]
fn relative_paths() {
    assert_eq!(relative_display_path("/w/src/a.rs", "/w"), "src/a.rs");
    assert_eq!(relative_display_path("/w", "/w"), "");
    assert_eq!(relative_display_path("/x/a.rs", "/w"), "/x/a.rs");
}

#[test]
fn breadcrumbs() {
    assert_eq!(breadcrumbs_for("/w", "/w/src/ui"), vec!["/w", "/w/src", "/w/src/ui"]);
    assert_eq!(breadcrumbs_for("/w", "/w"), vec!["/w"]);
    assert_eq!(breadcrumbs_for("/w", "/other"), vec!["/other"]);
}

#[test]
fn arranging_children() {
    let entries = vec![
        entry("p/zeta.rs", false),
        entry("p/target", true),
        entry("p/.hidden", false),
        entry("p/Alpha.rs", false),
        entry("p/src", true),
        entry("p/Docs", true),
    ];
    let shown: Vec<String> = arrange_children(entries.clone(), false).into_iter().map(|e| e.path).collect();
    assert_eq!(shown, vec!["p/Docs", "p/src", "p/Alpha.rs", "p/zeta.rs"]);
    let all: Vec<String> = arrange_children(entries, true).into_iter().map(|e| e.path).collect();
    assert_eq!(all, vec!["p/Docs", "p/src", "p/.hidden", "p/Alpha.rs", "p/zeta.rs"]);
}

#[test]
fn sorting_keeps_every_entry() {
    let entries = vec![entry("b", false), entry("target", true), entry("a", true)];
    let sorted: Vec<String> = sort_entries(entries).into_iter().map(|e| e.path).collect();
    assert_eq!(sorted, vec!["a", "target", "b"]);
}

#[test]
fn sort_keeps_ties_in_order() {
    let first = vec![entry("p/B.rs", false), entry("p/b.rs", false), entry("p/a", true)];
    let sorted: Vec<String> = sort_entries(first).into_iter().map(|e| e.path).collect();
    assert_eq!(sorted, vec!["p/a", "p/B.rs", "p/b.rs"]);
    let second = vec![entry("p/b.rs", false), entry("p/a", true), entry("p/B.rs", false)];
    let sorted: Vec<String> = sort_entries(second).into_iter().map(|e| e.path).collect();
    assert_eq!(sorted, vec!["p/a", "p/b.rs", "p/B.rs"]);
}

#[test]
fn hiding_dotfiles_only_removes() {
    let es = vec![entry("p/.git", true), entry("p/.env", false), entry("p/src", true), entry("p/a.rs", false), entry("p/.b", false)];
    let shown: Vec<String> = arrange_children(es.clone(), true).into_iter().map(|e| e.path).collect();
    let hidden: Vec<String> = arrange_children(es, false).into_iter().map(|e| e.path).collect();
    assert_eq!(hidden, vec!["p/src", "p/a.rs"]);
    let without_dots: Vec<String> = shown.iter().filter(|p| !p.rsplit('/').next().unwrap().starts_with('.')).cloned().collect();
    assert_eq!(hidden, without_dots);
}
