//! The heatmap's measure of a Rust source file: counts of declarations, a
//! weighted score, and the pressure tier that the score falls in.
use vstd::prelude::*;

use crate::paths::{extension, file_name, file_name_chars, join_path, path_exists, path_file_name, path_join, strings_view};
use crate::peek::starts_any;
use crate::text::{
    chars_of, eq_lit, lines, lines_of, seqs_view, starts_with, starts_with_lit, string_from, trim,
    trim_chars,
};

verus! {

/// Counts taken from one Rust source file, and its score.
#[derive(Clone, Copy, Debug, PartialEq, Eq)]
pub struct FileMetrics {
    pub lines: usize,
    pub structs: usize,
    pub enums: usize,
    pub functions: usize,
    pub impl_blocks: usize,
    pub uses: usize,
    pub score: usize,
}

/// The kinds of line that the heatmap counts.
#[derive(Clone, Copy, Debug, PartialEq, Eq, Structural)]
pub enum Metric {
    Structs,
    Enums,
    Functions,
    ImplBlocks,
    Uses,
}

pub open spec fn metric_prefixes(m: Metric) -> Seq<Seq<char>> {
    match m {
        Metric::Structs => seq!["struct "@, "pub struct "@],
        Metric::Enums => seq!["enum "@, "pub enum "@],
        Metric::Functions => seq![
            "fn "@,
            "pub fn "@,
            "pub(crate) fn "@,
            "async fn "@,
            "pub async fn "@,
            "pub(crate) async fn "@,
        ],
        Metric::ImplBlocks => seq!["impl "@],
        Metric::Uses => seq!["use "@, "pub use "@],
    }
}

/// Whether a trimmed line counts for metric `m`: not a `//` comment, and
/// it opens with one of the metric's keywords.
pub open spec fn counts_for(m: Metric, t: Seq<char>) -> bool {
    !starts_with(t, "//"@) && starts_any(t, metric_prefixes(m))
}

/// Number of lines of `ls` that, trimmed, count for `m`.
pub open spec fn count_metric(ls: Seq<Seq<char>>, m: Metric) -> nat
    decreases ls.len(),
{
    if ls.len() == 0 {
        0
    } else {
        count_metric(ls.drop_last(), m) + if counts_for(m, trim(ls.last())) {
            1nat
        } else {
            0nat
        }
    }
}

/// The score: a point per twenty lines, eight per struct or enum, four per
/// function, five per impl block and one per use declaration.
pub open spec fn score_of(lines: nat, structs: nat, enums: nat, functions: nat, impls: nat, uses: nat) -> nat {
    lines / 20 + structs * 8 + enums * 8 + functions * 4 + impls * 5 + uses
}

pub open spec fn metrics_of(contents: Seq<char>, m: FileMetrics) -> bool {
    let ls = lines(contents);
    &&& m.lines == ls.len()
    &&& m.structs == count_metric(ls, Metric::Structs)
    &&& m.enums == count_metric(ls, Metric::Enums)
    &&& m.functions == count_metric(ls, Metric::Functions)
    &&& m.impl_blocks == count_metric(ls, Metric::ImplBlocks)
    &&& m.uses == count_metric(ls, Metric::Uses)
    &&& m.score == score_of(
        m.lines as nat,
        m.structs as nat,
        m.enums as nat,
        m.functions as nat,
        m.impl_blocks as nat,
        m.uses as nat,
    )
}

proof fn lemma_count_le(ls: Seq<Seq<char>>, m: Metric)
    ensures
        count_metric(ls, m) <= ls.len(),
    decreases ls.len(),
{
    if ls.len() > 0 {
        lemma_count_le(ls.drop_last(), m);
    }
}

proof fn lemma_lines_len(s: Seq<char>)
    ensures
        lines(s).len() <= s.len(),
    decreases s.len(),
{
    if s.len() > 0 {
        let e = crate::text::line_end(s);
        if e < s.len() {
            lemma_lines_len(s.skip(e + 1int));
        }
    }
}

fn prefixes_exec(m: Metric) -> (v: Vec<&'static str>)
    ensures
        v@.map_values(|s: &str| s@) == metric_prefixes(m),
{
    let v = match m {
        Metric::Structs => vec!["struct ", "pub struct "],
        Metric::Enums => vec!["enum ", "pub enum "],
        Metric::Functions => vec![
            "fn ",
            "pub fn ",
            "pub(crate) fn ",
            "async fn ",
            "pub async fn ",
            "pub(crate) async fn ",
        ],
        Metric::ImplBlocks => vec!["impl "],
        Metric::Uses => vec!["use ", "pub use "],
    };
    assert(v@.map_values(|s: &str| s@) =~= metric_prefixes(m));
    v
}

fn counts_for_exec(m: Metric, t: &Vec<char>) -> (b: bool)
    ensures
        b == counts_for(m, t@),
{
    if starts_with_lit(t, "//") {
        return false;
    }
    let list = prefixes_exec(m);
    let ghost ps = metric_prefixes(m);
    let mut i: usize = 0;
    while i < list.len()
        invariant
            i <= list.len(),
            list@.map_values(|s: &str| s@) == ps,
            ps == metric_prefixes(m),
            !starts_with(t@, "//"@),
            forall|k: int| 0 <= k < i ==> !starts_with(t@, #[trigger] ps[k]),
        decreases list.len() - i,
    {
        assert(ps[i as int] == list@[i as int]@);
        if starts_with_lit(t, list[i]) {
            assert(starts_with(t@, ps[i as int]));
            assert(starts_any(t@, ps));
            return true;
        }
        i = i + 1;
    }
    false
}

/// Measures the Rust source `contents`.
pub fn analyze_rust_source(contents: &str) -> (r: FileMetrics)
    requires
        contents@.len() <= usize::MAX / 32,
    ensures
        metrics_of(contents@, r),
{
    let v = chars_of(contents);
    let ls = lines_of(&v);
    let ghost lv = seqs_view(ls@);
    proof {
        lemma_lines_len(contents@);
    }
    let mut structs: usize = 0;
    let mut enums: usize = 0;
    let mut functions: usize = 0;
    let mut impls: usize = 0;
    let mut uses: usize = 0;
    let mut i: usize = 0;
    assert(lv.take(0) =~= Seq::<Seq<char>>::empty());
    while i < ls.len()
        invariant
            i <= ls.len(),
            lv == seqs_view(ls@),
            lv == lines(contents@),
            ls.len() <= contents@.len(),
            structs == count_metric(lv.take(i as int), Metric::Structs),
            enums == count_metric(lv.take(i as int), Metric::Enums),
            functions == count_metric(lv.take(i as int), Metric::Functions),
            impls == count_metric(lv.take(i as int), Metric::ImplBlocks),
            uses == count_metric(lv.take(i as int), Metric::Uses),
        decreases ls.len() - i,
    {
        assert(lv.take(i + 1).drop_last() =~= lv.take(i as int));
        assert(lv.take(i + 1).last() == ls@[i as int]@);
        proof {
            lemma_count_le(lv.take(i as int), Metric::Structs);
            lemma_count_le(lv.take(i as int), Metric::Enums);
            lemma_count_le(lv.take(i as int), Metric::Functions);
            lemma_count_le(lv.take(i as int), Metric::ImplBlocks);
            lemma_count_le(lv.take(i as int), Metric::Uses);
        }
        let t = trim_chars(&ls[i]);
        if counts_for_exec(Metric::Structs, &t) {
            structs = structs + 1;
        }
        if counts_for_exec(Metric::Enums, &t) {
            enums = enums + 1;
        }
        if counts_for_exec(Metric::Functions, &t) {
            functions = functions + 1;
        }
        if counts_for_exec(Metric::ImplBlocks, &t) {
            impls = impls + 1;
        }
        if counts_for_exec(Metric::Uses, &t) {
            uses = uses + 1;
        }
        i = i + 1;
    }
    assert(lv.take(ls.len() as int) =~= lv);
    proof {
        lemma_count_le(lv, Metric::Structs);
        lemma_count_le(lv, Metric::Enums);
        lemma_count_le(lv, Metric::Functions);
        lemma_count_le(lv, Metric::ImplBlocks);
        lemma_count_le(lv, Metric::Uses);
    }
    let n = ls.len();
    let score = n / 20 + structs * 8 + enums * 8 + functions * 4 + impls * 5 + uses;
    FileMetrics {
        lines: n,
        structs,
        enums,
        functions,
        impl_blocks: impls,
        uses,
        score,
    }
}

/// The sum of the scores of `s`.
pub open spec fn total_score(s: Seq<FileMetrics>) -> int
    decreases s.len(),
{
    if s.len() == 0 {
        0
    } else {
        total_score(s.drop_last()) + s.last().score
    }
}

/// The largest score of `s`, 0 where `s` is empty.
pub open spec fn max_score(s: Seq<FileMetrics>) -> int
    decreases s.len(),
{
    if s.len() == 0 {
        0
    } else if s.last().score > max_score(s.drop_last()) {
        s.last().score as int
    } else {
        max_score(s.drop_last())
    }
}

proof fn lemma_total_score_grows(s: Seq<FileMetrics>, i: int)
    requires
        0 <= i <= s.len(),
    ensures
        total_score(s.take(i)) <= total_score(s),
    decreases s.len() - i,
{
    if i < s.len() {
        lemma_total_score_grows(s, i + 1);
        assert(s.take(i + 1).drop_last() =~= s.take(i));
    } else {
        assert(s.take(i) =~= s);
    }
}

/// The totals of the heatmap's status line: the sum of all scores and the
/// largest score; `None` where the sum does not fit in a `usize`.
pub fn score_totals(nodes: &Vec<FileMetrics>) -> (r: Option<(usize, usize)>)
    ensures
        match r {
            Some((total, max)) => total == total_score(nodes@) && max == max_score(nodes@),
            None => total_score(nodes@) > usize::MAX,
        },
{
    let mut total: usize = 0;
    let mut max: usize = 0;
    let mut i: usize = 0;
    assert(nodes@.take(0) =~= Seq::<FileMetrics>::empty());
    while i < nodes.len()
        invariant
            i <= nodes.len(),
            total == total_score(nodes@.take(i as int)),
            max == max_score(nodes@.take(i as int)),
        decreases nodes.len() - i,
    {
        assert(nodes@.take(i + 1).drop_last() =~= nodes@.take(i as int));
        assert(nodes@.take(i + 1).last() == nodes@[i as int]);
        let score = nodes[i].score;
        match total.checked_add(score) {
            Some(t) => {
                total = t;
            },
            None => {
                proof {
                    lemma_total_score_grows(nodes@, i + 1);
                }
                return None;
            },
        }
        if score > max {
            max = score;
        }
        i = i + 1;
    }
    assert(nodes@.take(nodes.len() as int) =~= nodes@);
    Some((total, max))
}

/// The pressure tier of a score: 2 from 70 up, 1 from 35 up, else 0.
pub open spec fn tier(score: usize) -> nat {
    if score >= 70 {
        2
    } else if score >= 35 {
        1
    } else {
        0
    }
}

pub fn stroke_for_score(score: usize) -> (r: &'static str)
    ensures
        r@ == if tier(score) == 2 {
            "#bc8d6b"@
        } else if tier(score) == 1 {
            "#9d72ff"@
        } else {
            "#6f4bb3"@
        },
{
    if score >= 70 {
        "#bc8d6b"
    } else if score >= 35 {
        "#9d72ff"
    } else {
        "#6f4bb3"
    }
}

pub fn stroke_width_for_score(score: usize) -> (r: &'static str)
    ensures
        r@ == if tier(score) == 2 {
            "6"@
        } else if tier(score) == 1 {
            "4"@
        } else {
            "2.5"@
        },
{
    if score >= 70 {
        "6"
    } else if score >= 35 {
        "4"
    } else {
        "2.5"
    }
}

pub fn pressure_label(score: usize) -> (r: &'static str)
    ensures
        r@ == if tier(score) == 2 {
            "High pressure"@
        } else if tier(score) == 1 {
            "Medium pressure"@
        } else {
            "Low pressure"@
        },
{
    if score >= 70 {
        "High pressure"
    } else if score >= 35 {
        "Medium pressure"
    } else {
        "Low pressure"
    }
}

/// A higher score never falls in a lower pressure tier.
pub proof fn law_tier_monotone(a: usize, b: usize)
    requires
        a <= b,
    ensures
        tier(a) <= tier(b),
{
}

/// Folders that the heatmap does not descend into.
pub open spec fn ignored_dir_name(n: Seq<char>) -> bool {
    n == "target"@ || n == ".git"@ || n == "node_modules"@ || n == "dist"@ || n == "build"@ || n
        == ".next"@ || n == ".dioxus"@ || n == ".idea"@ || n == ".vscode"@ || n == "__pycache__"@
}

pub fn should_ignore_dir(path: &str) -> (b: bool)
    ensures
        b == match file_name(path@) {
            Some(n) => ignored_dir_name(n),
            None => false,
        },
{
    let v = chars_of(path);
    match file_name_chars(&v) {
        Some(n) => eq_lit(&n, "target") || eq_lit(&n, ".git") || eq_lit(&n, "node_modules")
            || eq_lit(&n, "dist") || eq_lit(&n, "build") || eq_lit(&n, ".next") || eq_lit(
            &n,
            ".dioxus",
        ) || eq_lit(&n, ".idea") || eq_lit(&n, ".vscode") || eq_lit(&n, "__pycache__"),
        None => false,
    }
}

/// Whether `path` names a Rust source file (extension `rs`).
pub fn is_rust_source(path: &str) -> (b: bool)
    ensures
        b == (extension(path@) == Some("rs"@)),
{
    crate::paths::extension_is(path, "rs")
}

/// The label of a heatmap node: the file name, or `unknown.rs`.
pub fn label_for_path(path: &str) -> (r: String)
    ensures
        r@ == match file_name(path@) {
            Some(n) => n,
            None => "unknown.rs"@,
        },
{
    match path_file_name(path) {
        Some(n) => n,
        None => string_from("unknown.rs"),
    }
}

/// The folder the heatmap scans, given whether `src` exists under the root.
pub open spec fn scope_root(root: Seq<char>, src_exists: bool) -> Seq<char> {
    if src_exists {
        join_path(root, "src"@)
    } else {
        root
    }
}

/// The folder the heatmap scans when `src_exists` tells whether `src`
/// exists under `root`.
pub fn scope_root_for(root: &str, src_exists: bool) -> (r: String)
    ensures
        r@ == scope_root(root@, src_exists),
{
    if src_exists {
        path_join(root, "src")
    } else {
        string_from(root)
    }
}

/// The folder the heatmap scans: `src` under the root where it exists,
/// else the root.
pub fn scan_scope_root(root: &str) -> (r: String)
    ensures
        r@ == scope_root(root@, true) || r@ == scope_root(root@, false),
{
    let src_root = path_join(root, "src");
    let exists = path_exists(src_root.as_str());
    scope_root_for(root, exists)
}

/// Which trimmed lines each measure counts, keyword by keyword: a line
/// that is not a `//` comment counts as a struct when it opens with
/// `struct ` or `pub struct `, as an enum with `enum ` or `pub enum `, as a
/// function with `fn `, `pub fn `, `pub(crate) fn `, `async fn `,
/// `pub async fn ` or `pub(crate) async fn `, as an impl block with `impl `,
/// as a use declaration with `use ` or `pub use `; no other line counts.
pub proof fn law_counted_keywords(t: Seq<char>)
    ensures
        counts_for(Metric::Structs, t) <==> !starts_with(t, "//"@) && (starts_with(t, "struct "@)
            || starts_with(t, "pub struct "@)),
        counts_for(Metric::Enums, t) <==> !starts_with(t, "//"@) && (starts_with(t, "enum "@)
            || starts_with(t, "pub enum "@)),
        counts_for(Metric::Functions, t) <==> !starts_with(t, "//"@) && (starts_with(t, "fn "@)
            || starts_with(t, "pub fn "@) || starts_with(t, "pub(crate) fn "@) || starts_with(
            t,
            "async fn "@,
        ) || starts_with(t, "pub async fn "@) || starts_with(t, "pub(crate) async fn "@)),
        counts_for(Metric::ImplBlocks, t) <==> !starts_with(t, "//"@) && starts_with(t, "impl "@),
        counts_for(Metric::Uses, t) <==> !starts_with(t, "//"@) && (starts_with(t, "use "@)
            || starts_with(t, "pub use "@)),
{
    let s = metric_prefixes(Metric::Structs);
    assert(s[0] == "struct "@ && s[1] == "pub struct "@);
    let e = metric_prefixes(Metric::Enums);
    assert(e[0] == "enum "@ && e[1] == "pub enum "@);
    let f = metric_prefixes(Metric::Functions);
    assert(f[0] == "fn "@ && f[1] == "pub fn "@ && f[2] == "pub(crate) fn "@ && f[3] == "async fn "@
        && f[4] == "pub async fn "@ && f[5] == "pub(crate) async fn "@);
    let im = metric_prefixes(Metric::ImplBlocks);
    assert(im[0] == "impl "@);
    let u = metric_prefixes(Metric::Uses);
    assert(u[0] == "use "@ && u[1] == "pub use "@);
}

} // verus!
