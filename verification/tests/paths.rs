use mor_rust_code_gui_manager::paths::{
    path_extension, path_file_name, path_file_stem, path_is_absolute, path_join, path_parent,
};
use std::path::Path;

const SAMPLES: &[&str] = &[
    "", "/", ".", "..", "./", "../", "a", "a/", "a//", "/a", "/a/", "a/b", "a//b", "a/./b",
    "a/b/.", "a/b/..", "./a", "./a/b", ".a", "a.", ".a.b", "a.b.c", "/a/b/c.rs", "src/lib.rs",
    "//x", "./.", "a/.", "x/y/", "x//y//z", "../a", "/.", "/..", "mod.rs", ".gitignore",
    "README", "dir/.hidden", "a/b.tar.gz", "..x", "x..", "./src/ui/mod.rs", "a/./",
];

#[test]
fn file_name_agrees_with_std() {
    for s in SAMPLES {
        let expected = Path::new(s).file_name().map(|n| n.to_str().unwrap().to_string());
        assert_eq!(path_file_name(s), expected, "file_name of {:?}", s);
    }
}

#[test]
fn parent_agrees_with_std() {
    for s in SAMPLES {
        let expected = Path::new(s).parent().map(|n| n.to_str().unwrap().to_string());
        assert_eq!(path_parent(s), expected, "parent of {:?}", s);
    }
}

#[test]
fn stem_and_extension_agree_with_std() {
    for s in SAMPLES {
        let stem = Path::new(s).file_stem().map(|n| n.to_str().unwrap().to_string());
        let ext = Path::new(s).extension().map(|n| n.to_str().unwrap().to_string());
        assert_eq!(path_file_stem(s), stem, "file_stem of {:?}", s);
        assert_eq!(path_extension(s), ext, "extension of {:?}", s);
    }
}

#[test]
fn join_agrees_with_std() {
    for a in SAMPLES {
        for b in ["mod.rs", "/abs", "", "x/y", "."] {
            let expected = Path::new(a).join(b).to_str().unwrap().to_string();
            assert_eq!(path_join(a, b), expected, "join {:?} {:?}", a, b);
        }
    }
}

#[test]
fn is_absolute_agrees_with_std() {
    for s in SAMPLES {
        assert_eq!(path_is_absolute(s), Path::new(s).is_absolute(), "{:?}", s);
    }
}
