use mor_rust_code_gui_manager::file_manager::ChildEntry;
use mor_rust_code_gui_manager::peek::{
    compact_line, declaration_preview, detect_rust_symbols, file_peek, file_peek_wants_contents,
    folder_peek, is_probably_text_file,
};

fn entry(path: &str, is_dir: bool) -> ChildEntry {
    ChildEntry { path: path.to_string(), is_dir, is_file: !is_dir }
}

#[test]
fn text_files_by_extension() {
    assert!(is_probably_text_file("src/main.rs"));
    assert!(is_probably_text_file("a/b.yml"));
    assert!(!is_probably_text_file("logo.png"));
    assert!(!is_probably_text_file("Makefile"));
    assert!(!is_probably_text_file(".rs"));
}

#[test]
fn compacting_lines() {
    assert_eq!(compact_line("   pub   fn  main ( )  "), "pub fn main ( )");
    assert_eq!(compact_line("\t\t"), "");
}

#[test]
fn rust_symbols_are_capped_at_eight() {
    let src = "// pub struct Commented;\nuse x;\npub struct A;\nstruct B;\n  pub   enum C {}\nenum D {}\npub fn e() {}\nfn f() {}\npub mod g;\nmod h;\nconst I: u8 = 1;\n";
    assert_eq!(
        detect_rust_symbols(src),
        vec!["pub struct A;", "struct B;", "pub enum C {}", "enum D {}", "pub fn e() {}", "fn f() {}", "pub mod g;", "mod h;"]
    );
    assert_eq!(detect_rust_symbols("#[component]\npub const X: u8 = 0;"), vec!["#[component]", "pub const X: u8 = 0;"]);
}

#[test]
fn previews_by_extension() {
    let toml = "[package]\nname = \"x\"\n# comment\nplain\n[dependencies]\n";
    assert_eq!(declaration_preview(toml, "toml"), vec!["[package]", "name = \"x\"", "[dependencies]"]);
    let css = "body {\n  color: red;\n}\n--x: 1;\n";
    assert_eq!(declaration_preview(css, "css"), vec!["body {", "color: red;", "--x: 1;"]);
    let rs = "use a;\nlet x = 1;\nimpl B {}\n// fn no\n";
    assert_eq!(declaration_preview(rs, "rs"), vec!["use a;", "impl B {}"]);
    let md = "a\nb\nc\nd\ne\nf\ng\n";
    assert_eq!(declaration_preview(md, "md"), vec!["a", "b", "c", "d", "e", "f"]);
}

#[test]
fn folder_peeks() {
    let children = vec![
        entry("w/src", true),
        entry("w/assets", true),
        entry("w/Cargo.toml", false),
        ChildEntry { path: "w/link".into(), is_dir: false, is_file: false },
    ];
    let p = folder_peek("w", "w", &children);
    assert_eq!(p.title, "w");
    assert_eq!(p.metadata, vec!["Kind: folder", "Children: 4", "Folders: 2", "Files: 1"]);
    assert_eq!(p.related_files, vec!["src", "assets", "Cargo.toml", "link"]);
    assert!(p.symbols.is_empty() && p.preview.is_empty());
}

#[test]
fn file_peeks() {
    assert!(file_peek_wants_contents("w/src/a.rs", 10));
    assert!(!file_peek_wants_contents("w/src/a.rs", 200_000));
    assert!(!file_peek_wants_contents("w/logo.png", 10));

    let p = file_peek("/w/src/a.rs", "/w", 42, Some("pub struct S;\nfn f() {}\n".to_string()));
    assert_eq!(p.title, "a.rs");
    assert_eq!(p.path, "src/a.rs");
    assert_eq!(p.metadata, vec!["Kind: rs", "Size: 42 bytes", "Lines: 2"]);
    assert_eq!(p.symbols, vec!["pub struct S;", "fn f() {}"]);
    assert_eq!(p.preview, vec!["pub struct S;", "fn f() {}"]);

    let bin = file_peek("/w/logo.png", "/w", 7, None);
    assert_eq!(bin.metadata, vec!["Kind: png", "Size: 7 bytes", "Preview: skipped binary/unknown type"]);
    let big = file_peek("/w/big.md", "/w", 200_000, None);
    assert_eq!(big.metadata[2], "Preview: skipped file over 128 KB");
    let unreadable = file_peek("/w/x.toml", "/w", 3, None);
    assert_eq!(unreadable.metadata[2], "Preview: unreadable as text");
    let plain = file_peek("/w/LICENSE", "/w", 0, None);
    assert_eq!(plain.metadata[0], "Kind: file");
    let md = file_peek("/w/n.md", "/w", 5, Some("x\ny".to_string()));
    assert!(md.symbols.is_empty());
    assert_eq!(md.preview, vec!["x", "y"]);
}

#[test]
fn compacting_is_idempotent_whitespace_split() {
    for line in ["  pub   fn  go( ) ", "\tstruct\u{a0}A ;\n", "", "   ", "x"] {
        let once = compact_line(line);
        assert_eq!(compact_line(&once), once);
        assert_eq!(once, line.split_whitespace().collect::<Vec<_>>().join(" "));
    }
    assert_eq!(compact_line("  pub   fn  go( ) "), "pub fn go( )");
}
