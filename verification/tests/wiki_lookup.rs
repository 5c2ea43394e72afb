use mor_rust_code_gui_manager::wiki_lookup::{
    common_file_wiki_lookup, doc_search_url, project_wiki_lookup, DocSearch, WikiLookup, WikiLookupKind,
};

#[test]
fn constructors_set_kind() {
    let c = WikiLookup::common("L", "U");
    assert_eq!(c, WikiLookup { label: "L".into(), url: "U".into(), kind: WikiLookupKind::CommonDocs });
    let p = WikiLookup::project("L", "U");
    assert_eq!(p.kind, WikiLookupKind::ProjectWiki);
}

#[test]
fn well_known_file_names() {
    let l = common_file_wiki_lookup("proj/Cargo.toml").unwrap();
    assert_eq!(l.label, "Search Rust/File Wiki: Cargo.toml");
    assert_eq!(l.url, "https://doc.rust-lang.org/cargo/reference/manifest.html");
    assert_eq!(l.kind, WikiLookupKind::CommonDocs);
    let r = common_file_wiki_lookup("README").unwrap();
    assert_eq!(r.label, "Search Rust/File Wiki: README.md");
    let g = common_file_wiki_lookup("a/.gitignore").unwrap();
    assert_eq!(g.url, "https://git-scm.com/docs/gitignore");
    let m = common_file_wiki_lookup("src/ui/mod.rs").unwrap();
    assert_eq!(m.label, "Search Rust/File Wiki: mod.rs");
}

#[test]
fn lookups_by_extension() {
    let rs = common_file_wiki_lookup("src/ui/view.rs").unwrap();
    assert_eq!(rs.label, "Search Rust/File Wiki: Rust source file");
    assert_eq!(rs.url, "https://doc.rust-lang.org/reference/items/modules.html");
    let json = common_file_wiki_lookup("data/x.json").unwrap();
    assert_eq!(json.label, "Search Rust/File Wiki: JSON");
    let toml = common_file_wiki_lookup("rustfmt.toml").unwrap();
    assert_eq!(toml.url, "https://toml.io/en/");
    assert_eq!(common_file_wiki_lookup("image.png"), None);
    assert_eq!(common_file_wiki_lookup("Makefile"), None);
    assert_eq!(common_file_wiki_lookup("/"), None);
    assert_eq!(common_file_wiki_lookup("dir/.."), None);
}

#[test]
fn project_wiki_pages() {
    let l = project_wiki_lookup("Register Module").unwrap();
    assert_eq!(l.label, "Search Project Wiki: Register Module");
    assert_eq!(
        l.url,
        "https://github.com/MoribundMurdoch/mor-rust-code-gui-manager/wiki/Register-Module-Automation"
    );
    assert_eq!(l.kind, WikiLookupKind::ProjectWiki);
    assert_eq!(
        project_wiki_lookup("Heatmap").unwrap().url,
        "https://github.com/MoribundMurdoch/mor-rust-code-gui-manager/wiki/Heatmap-View"
    );
    assert_eq!(project_wiki_lookup("Unknown topic"), None);
}

#[test]
fn lookup_depends_on_file_name_only() {
    for name in ["Cargo.toml", "main.rs", "notes.md", "style.css", "data.bin", ".gitignore"] {
        for dir in ["", "/", "proj", "proj/", "/a/b/c", "./x"] {
            let joined = std::path::Path::new(dir).join(name).display().to_string();
            assert_eq!(common_file_wiki_lookup(&joined), common_file_wiki_lookup(name), "{} in {}", name, dir);
        }
    }
}

#[test]
fn search_urls() {
    assert_eq!(doc_search_url(DocSearch::RustStd, "  PathBuf "), Some("https://doc.rust-lang.org/std/?search=PathBuf".to_string()));
    assert_eq!(doc_search_url(DocSearch::DocsRs, "serde"), Some("https://docs.rs/releases/search?query=serde".to_string()));
    assert_eq!(doc_search_url(DocSearch::DocsRs, " \t "), None);
}
