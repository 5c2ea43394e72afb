use mor_rust_code_gui_manager::find_replace::{block_replace, normalize_newlines};
use mor_rust_code_gui_manager::text::{chars_of, compact_chars, decimal_string, lines_of, trim_end_str, trim_str};

const SAMPLES: &[&str] = &[
    "", "a", "\n", "\n\n", "a\n", "a\nb", "a\r\nb\r\n", "a\r", "\r\n", "x\ny\n\nz", "  lead",
    "trail  ", " \t both \u{3000}", "\u{a0}nbsp\u{2028}", "one  two\tthree", "\r\r\n",
];

fn lines_std(s: &str) -> Vec<String> {
    s.lines().map(|l| l.to_string()).collect()
}

#[test]
fn lines_agree_with_std() {
    for s in SAMPLES {
        let v = chars_of(s);
        let got: Vec<String> = lines_of(&v).iter().map(|l| l.iter().collect()).collect();
        assert_eq!(got, lines_std(s), "lines of {:?}", s);
    }
}

#[test]
fn trims_agree_with_std() {
    for s in SAMPLES {
        assert_eq!(trim_str(s), s.trim(), "trim of {:?}", s);
        assert_eq!(trim_end_str(s), s.trim_end(), "trim_end of {:?}", s);
    }
}

#[test]
fn compact_agrees_with_split_whitespace() {
    for s in SAMPLES {
        let v = chars_of(s);
        let got: String = compact_chars(&v).iter().collect();
        let expected = s.trim().split_whitespace().collect::<Vec<_>>().join(" ");
        assert_eq!(got, expected, "compact of {:?}", s);
    }
}

#[test]
fn decimal_renders_numbers() {
    for n in [0u64, 7, 10, 99, 100, 131072, u64::MAX] {
        assert_eq!(decimal_string(n), n.to_string());
    }
}

#[test]
fn normalize_turns_crlf_into_lf() {
    assert_eq!(normalize_newlines("a\r\nb\r\n"), "a\nb\n");
    assert_eq!(normalize_newlines("a\rb"), "a\rb");
    assert_eq!(normalize_newlines("\r\r\n"), "\r\n");
}

#[test]
fn block_replace_agrees_with_std_replace() {
    let cases = [
        ("fn a() {}\r\nfn b() {}\r\n", "fn a() {}\n", "fn c() {}\n"),
        ("aaaa", "aa", "b"),
        ("abcabc", "bc", ""),
        ("xyz", "q", "r"),
        ("ab", "", "-"),
    ];
    for (content, find, replace) in cases {
        let c = content.replace("\r\n", "\n");
        let f = find.replace("\r\n", "\n");
        let r = replace.replace("\r\n", "\n");
        let expected = if c.contains(&f) { Some(c.replace(&f, &r)) } else { None };
        assert_eq!(block_replace(content, find, replace), expected, "{:?}", (content, find, replace));
    }
}

#[test]
fn block_replace_by_itself_is_identity() {
    assert_eq!(block_replace("a\r\nb\r\nc", "b\r\n", "b\r\n"), Some("a\nb\nc".to_string()));
}

#[test]
fn block_replace_not_found() {
    assert_eq!(block_replace("struct A;", "struct B;", "struct C;"), None);
}
