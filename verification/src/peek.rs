//! The context peek of a node: a short description of a folder or file,
//! with the declarations of a source file picked from its lines.
use vstd::prelude::*;

use crate::file_manager::{label_for_path, label_text, relative_display_path, relative_text, ChildEntry};
use crate::paths::{extension, path_extension, strings_view};
use crate::text::{
    chars_of, compact, compact_chars, contains_char_exec, contains_char, decimal, decimal_string,
    ends_with, eq_lit, lines, lines_of, seqs_view, starts_with, starts_with_lit, string_from,
    string_of,
};

verus! {

/// What the manager shows about the node under the pointer.
#[derive(Clone, Debug, PartialEq, Eq)]
pub struct NodeContextPeek {
    pub title: String,
    pub path: String,
    pub metadata: Vec<String>,
    pub symbols: Vec<String>,
    pub related_files: Vec<String>,
    pub preview: Vec<String>,
}

/// Extensions of files that are shown as text.
pub open spec fn text_extension(e: Seq<char>) -> bool {
    e == "rs"@ || e == "toml"@ || e == "md"@ || e == "txt"@ || e == "css"@ || e == "html"@ || e
        == "js"@ || e == "ts"@ || e == "tsx"@ || e == "jsx"@ || e == "json"@ || e == "yaml"@ || e
        == "yml"@ || e == "xml"@ || e == "ron"@
}

pub open spec fn is_text_path(p: Seq<char>) -> bool {
    match extension(p) {
        Some(e) => text_extension(e),
        None => false,
    }
}

fn text_extension_exec(e: &Vec<char>) -> (b: bool)
    ensures
        b == text_extension(e@),
{
    eq_lit(e, "rs") || eq_lit(e, "toml") || eq_lit(e, "md") || eq_lit(e, "txt") || eq_lit(e, "css")
        || eq_lit(e, "html") || eq_lit(e, "js") || eq_lit(e, "ts") || eq_lit(e, "tsx") || eq_lit(
        e,
        "jsx",
    ) || eq_lit(e, "json") || eq_lit(e, "yaml") || eq_lit(e, "yml") || eq_lit(e, "xml") || eq_lit(
        e,
        "ron",
    )
}

/// Whether the file at `path` is likely text, judged by its extension.
pub fn is_probably_text_file(path: &str) -> (b: bool)
    ensures
        b == is_text_path(path@),
{
    match path_extension(path) {
        Some(e) => {
            let v = chars_of(e.as_str());
            text_extension_exec(&v)
        },
        None => false,
    }
}

/// `line` with its words separated by single spaces.
pub fn compact_line(line: &str) -> (r: String)
    ensures
        r@ == compact(line@),
{
    let v = chars_of(line);
    string_of(&compact_chars(&v))
}

/// Which lines a picker keeps.
#[derive(Clone, Copy, Debug, PartialEq, Eq, Structural)]
pub enum LineFilter {
    /// Declarations worth anchoring on in Rust source.
    RustSymbols,
    /// Lines that outline Rust source.
    RustOutline,
    /// Table headers and assignments in TOML.
    Toml,
    /// Rules, custom properties and declarations in CSS.
    Css,
    /// Every line.
    Any,
}

pub open spec fn starts_any(c: Seq<char>, ps: Seq<Seq<char>>) -> bool {
    exists|i: int| 0 <= i < ps.len() && starts_with(c, ps[i])
}

pub open spec fn symbol_prefixes() -> Seq<Seq<char>> {
    seq![
        "pub struct "@,
        "struct "@,
        "pub enum "@,
        "enum "@,
        "pub fn "@,
        "fn "@,
        "pub mod "@,
        "mod "@,
        "#[component]"@,
        "pub const "@,
        "const "@,
    ]
}

pub open spec fn outline_prefixes() -> Seq<Seq<char>> {
    seq!["use "@, "pub "@, "fn "@, "struct "@, "enum "@, "impl "@, "#[component]"@]
}

/// Whether a picker of kind `f` keeps the compacted line `c`.
pub open spec fn wanted(f: LineFilter, c: Seq<char>) -> bool {
    match f {
        LineFilter::RustSymbols => starts_any(c, symbol_prefixes()),
        LineFilter::RustOutline => starts_any(c, outline_prefixes()),
        LineFilter::Toml => starts_with(c, seq!['[']) || contains_char(c, '='),
        LineFilter::Css => ends_with(c, seq!['{']) || starts_with(c, "--"@) || contains_char(c, ':'),
        LineFilter::Any => true,
    }
}

/// The compacted lines that are neither blank nor `//` comments and that
/// the picker keeps, in order.
pub open spec fn picked(ls: Seq<Seq<char>>, f: LineFilter) -> Seq<Seq<char>>
    decreases ls.len(),
{
    if ls.len() == 0 {
        seq![]
    } else {
        let prev = picked(ls.drop_last(), f);
        let c = compact(ls.last());
        if c.len() > 0 && !starts_with(c, "//"@) && wanted(f, c) {
            prev.push(c)
        } else {
            prev
        }
    }
}

/// At most the first `n` elements of `s`.
pub open spec fn first_n(s: Seq<Seq<char>>, n: nat) -> Seq<Seq<char>> {
    if s.len() <= n {
        s
    } else {
        s.take(n as int)
    }
}

/// The first `cap` lines of `contents` that the picker keeps.
pub open spec fn picked_lines(contents: Seq<char>, f: LineFilter, cap: nat) -> Seq<Seq<char>> {
    first_n(picked(lines(contents), f), cap)
}

proof fn lemma_picked_prefix(ls: Seq<Seq<char>>, i: int, f: LineFilter)
    requires
        0 <= i <= ls.len(),
    ensures
        picked(ls.take(i), f).len() <= picked(ls, f).len(),
        picked(ls, f).take(picked(ls.take(i), f).len() as int) == picked(ls.take(i), f),
    decreases ls.len(),
{
    if i == ls.len() {
        assert(ls.take(i) =~= ls);
        assert(picked(ls, f).take(picked(ls, f).len() as int) =~= picked(ls, f));
    } else {
        lemma_picked_prefix(ls.drop_last(), i, f);
        assert(ls.drop_last().take(i) =~= ls.take(i));
        let p = picked(ls.drop_last(), f);
        let q = picked(ls.take(i), f);
        assert(picked(ls, f).take(q.len() as int) =~= p.take(q.len() as int));
    }
}

fn starts_any_exec(c: &Vec<char>, f: LineFilter) -> (b: bool)
    requires
        f == LineFilter::RustSymbols || f == LineFilter::RustOutline,
    ensures
        f == LineFilter::RustSymbols ==> b == starts_any(c@, symbol_prefixes()),
        f == LineFilter::RustOutline ==> b == starts_any(c@, outline_prefixes()),
{
    let ghost ps = if f == LineFilter::RustSymbols {
        symbol_prefixes()
    } else {
        outline_prefixes()
    };
    let list: Vec<&str> = if f == LineFilter::RustSymbols {
        vec![
            "pub struct ",
            "struct ",
            "pub enum ",
            "enum ",
            "pub fn ",
            "fn ",
            "pub mod ",
            "mod ",
            "#[component]",
            "pub const ",
            "const ",
        ]
    } else {
        vec!["use ", "pub ", "fn ", "struct ", "enum ", "impl ", "#[component]"]
    };
    assert(list@.map_values(|s: &str| s@) =~= ps);
    let mut i: usize = 0;
    while i < list.len()
        invariant
            i <= list.len(),
            list@.map_values(|s: &str| s@) == ps,
            f == LineFilter::RustSymbols ==> ps == symbol_prefixes(),
            f == LineFilter::RustOutline ==> ps == outline_prefixes(),
            forall|k: int| 0 <= k < i ==> !starts_with(c@, #[trigger] ps[k]),
        decreases list.len() - i,
    {
        assert(ps[i as int] == list@[i as int]@);
        if starts_with_lit(c, list[i]) {
            assert(starts_with(c@, ps[i as int]));
            assert(starts_any(c@, ps));
            return true;
        }
        i = i + 1;
    }
    false
}

fn wanted_exec(f: LineFilter, c: &Vec<char>) -> (b: bool)
    ensures
        b == wanted(f, c@),
{
    match f {
        LineFilter::RustSymbols => starts_any_exec(c, f),
        LineFilter::RustOutline => starts_any_exec(c, f),
        LineFilter::Toml => {
            let open = vec!['['];
            assert(open@ =~= seq!['[']);
            crate::text::starts_with_chars(c, &open) || contains_char_exec(c, '=')
        },
        LineFilter::Css => {
            let brace = vec!['{'];
            assert(brace@ =~= seq!['{']);
            crate::text::ends_with_chars(c, &brace) || starts_with_lit(c, "--")
                || contains_char_exec(c, ':')
        },
        LineFilter::Any => true,
    }
}

/// The first `cap` lines of `contents`, compacted, that are neither blank
/// nor `//` comments and that the picker `f` keeps.
pub fn pick_lines(contents: &str, f: LineFilter, cap: usize) -> (r: Vec<String>)
    ensures
        strings_view(r@) == picked_lines(contents@, f, cap as nat),
{
    let v = chars_of(contents);
    let ls = lines_of(&v);
    let ghost lv = seqs_view(ls@);
    let mut out: Vec<String> = Vec::new();
    let mut i: usize = 0;
    assert(lv.take(0) =~= Seq::<Seq<char>>::empty());
    assert(strings_view(out@) =~= Seq::<Seq<char>>::empty());
    while i < ls.len() && out.len() < cap
        invariant
            i <= ls.len(),
            out.len() <= cap,
            lv == seqs_view(ls@),
            lv == lines(contents@),
            strings_view(out@) == picked(lv.take(i as int), f),
        decreases ls.len() - i,
    {
        assert(lv.take(i + 1).drop_last() =~= lv.take(i as int));
        assert(lv.take(i + 1).last() == ls@[i as int]@);
        let c = compact_chars(&ls[i]);
        if c.len() > 0 && !starts_with_lit(&c, "//") && wanted_exec(f, &c) {
            let ghost old_out = strings_view(out@);
            out.push(string_of(&c));
            assert(strings_view(out@) =~= old_out.push(c@));
        }
        i = i + 1;
    }
    proof {
        lemma_picked_prefix(lv, i as int, f);
        if i == ls.len() {
            assert(lv.take(i as int) =~= lv);
        } else {
            assert(picked(lv, f).take(cap as int) == strings_view(out@));
        }
    }
    out
}

/// The declarations of Rust source `contents` to anchor on: its first
/// eight struct, enum, function, module, component and constant lines.
pub fn detect_rust_symbols(contents: &str) -> (r: Vec<String>)
    ensures
        strings_view(r@) == picked_lines(contents@, LineFilter::RustSymbols, 8),
{
    pick_lines(contents, LineFilter::RustSymbols, 8)
}

/// The picker that outlines files with extension `ext`.
pub open spec fn filter_for(ext: Seq<char>) -> LineFilter {
    if ext == "rs"@ {
        LineFilter::RustOutline
    } else if ext == "toml"@ {
        LineFilter::Toml
    } else if ext == "css"@ {
        LineFilter::Css
    } else {
        LineFilter::Any
    }
}

fn filter_for_exec(ext: &str) -> (f: LineFilter)
    ensures
        f == filter_for(ext@),
{
    let e = chars_of(ext);
    if eq_lit(&e, "rs") {
        LineFilter::RustOutline
    } else if eq_lit(&e, "toml") {
        LineFilter::Toml
    } else if eq_lit(&e, "css") {
        LineFilter::Css
    } else {
        LineFilter::Any
    }
}

/// The first six lines that outline `contents`, for a file with extension
/// `extension`.
pub fn declaration_preview(contents: &str, extension: &str) -> (r: Vec<String>)
    ensures
        strings_view(r@) == picked_lines(contents@, filter_for(extension@), 6),
{
    let f = filter_for_exec(extension);
    pick_lines(contents, f, 6)
}

pub open spec fn count_dirs(cs: Seq<ChildEntry>) -> nat
    decreases cs.len(),
{
    if cs.len() == 0 {
        0
    } else {
        count_dirs(cs.drop_last()) + if cs.last().is_dir {
            1nat
        } else {
            0nat
        }
    }
}

pub open spec fn count_files(cs: Seq<ChildEntry>) -> nat
    decreases cs.len(),
{
    if cs.len() == 0 {
        0
    } else {
        count_files(cs.drop_last()) + if cs.last().is_file {
            1nat
        } else {
            0nat
        }
    }
}

proof fn lemma_counts_bounded(cs: Seq<ChildEntry>)
    ensures
        count_dirs(cs) <= cs.len(),
        count_files(cs) <= cs.len(),
    decreases cs.len(),
{
    if cs.len() > 0 {
        lemma_counts_bounded(cs.drop_last());
    }
}

/// The labels of the first eight children.
pub open spec fn nearby_labels(cs: Seq<ChildEntry>) -> Seq<Seq<char>> {
    let n: int = if cs.len() <= 8 {
        cs.len() as int
    } else {
        8
    };
    Seq::new(n as nat, |i: int| label_text(cs[i].path@))
}

pub open spec fn folder_metadata(cs: Seq<ChildEntry>) -> Seq<Seq<char>> {
    seq![
        "Kind: folder"@,
        "Children: "@ + decimal(cs.len()),
        "Folders: "@ + decimal(count_dirs(cs)),
        "Files: "@ + decimal(count_files(cs)),
    ]
}

fn labelled_count(label: &str, n: usize) -> (r: String)
    ensures
        r@ == label@ + decimal(n as nat),
{
    let mut r = string_from(label);
    let d = decimal_string(n as u64);
    r.append(d.as_str());
    r
}

/// The peek of a folder whose children, as the manager shows them, are
/// `children`.
pub fn folder_peek(path: &str, workspace_root: &str, children: &Vec<ChildEntry>) -> (r: NodeContextPeek)
    ensures
        r.title@ == label_text(path@),
        r.path@ == relative_text(path@, workspace_root@),
        strings_view(r.metadata@) == folder_metadata(children@),
        r.symbols@.len() == 0,
        strings_view(r.related_files@) == nearby_labels(children@),
        r.preview@.len() == 0,
{
    let mut folders: usize = 0;
    let mut files: usize = 0;
    let mut related: Vec<String> = Vec::new();
    let mut i: usize = 0;
    assert(children@.take(0) =~= Seq::<ChildEntry>::empty());
    while i < children.len()
        invariant
            i <= children.len(),
            folders == count_dirs(children@.take(i as int)),
            files == count_files(children@.take(i as int)),
            related.len() == if i <= 8 {
                i as int
            } else {
                8
            },
            forall|k: int| 0 <= k < related.len() ==> (#[trigger] related@[k])@ == label_text(
                children@[k].path@,
            ),
        decreases children.len() - i,
    {
        assert(children@.take(i + 1).drop_last() =~= children@.take(i as int));
        proof {
            lemma_counts_bounded(children@.take(i as int));
        }
        if children[i].is_dir {
            folders = folders + 1;
        }
        if children[i].is_file {
            files = files + 1;
        }
        if i < 8 {
            related.push(label_for_path(children[i].path.as_str()));
        }
        i = i + 1;
    }
    assert(children@.take(children.len() as int) =~= children@);
    assert(strings_view(related@) =~= nearby_labels(children@));
    let metadata = vec![
        string_from("Kind: folder"),
        labelled_count("Children: ", children.len()),
        labelled_count("Folders: ", folders),
        labelled_count("Files: ", files),
    ];
    assert(strings_view(metadata@) =~= folder_metadata(children@));
    NodeContextPeek {
        title: label_for_path(path),
        path: relative_display_path(path, workspace_root),
        metadata,
        symbols: Vec::new(),
        related_files: related,
        preview: Vec::new(),
    }
}

/// The largest file whose text is previewed, in bytes.
pub const PREVIEW_LIMIT_BYTES: u64 = 131072;

/// The extension of `path`, or nothing.
pub open spec fn ext_or_empty(p: Seq<char>) -> Seq<char> {
    match extension(p) {
        Some(e) => e,
        None => seq![],
    }
}

/// Whether the peek of the file at `path`, of `size_bytes` bytes, shows
/// its text, so that the text must be read.
pub open spec fn wants_contents(p: Seq<char>, size_bytes: u64) -> bool {
    is_text_path(p) && size_bytes <= PREVIEW_LIMIT_BYTES
}

pub fn file_peek_wants_contents(path: &str, size_bytes: u64) -> (b: bool)
    ensures
        b == wants_contents(path@, size_bytes),
{
    is_probably_text_file(path) && size_bytes <= PREVIEW_LIMIT_BYTES
}

pub open spec fn kind_line(p: Seq<char>) -> Seq<char> {
    "Kind: "@ + if ext_or_empty(p).len() == 0 {
        "file"@
    } else {
        ext_or_empty(p)
    }
}

/// The metadata lines of a file peek.
pub open spec fn file_metadata(p: Seq<char>, size_bytes: u64, contents: Option<Seq<char>>) -> Seq<Seq<char>> {
    let head = seq![kind_line(p), "Size: "@ + decimal(size_bytes as nat) + " bytes"@];
    if !is_text_path(p) {
        head.push("Preview: skipped binary/unknown type"@)
    } else if size_bytes > PREVIEW_LIMIT_BYTES {
        head.push("Preview: skipped file over 128 KB"@)
    } else {
        match contents {
            None => head.push("Preview: unreadable as text"@),
            Some(c) => head.push("Lines: "@ + decimal(lines(c).len())),
        }
    }
}

/// The peek of the file at `path` of `size_bytes` bytes (0 where its size
/// could not be read), whose text is `contents` where it was read.
pub fn file_peek(path: &str, workspace_root: &str, size_bytes: u64, contents: Option<String>) -> (r: NodeContextPeek)
    ensures
        r.title@ == label_text(path@),
        r.path@ == relative_text(path@, workspace_root@),
        strings_view(r.metadata@) == file_metadata(
            path@,
            size_bytes,
            match contents {
                Some(c) => Some(c@),
                None => None,
            },
        ),
        r.related_files@.len() == 0,
        wants_contents(path@, size_bytes) && contents is Some && ext_or_empty(path@) == "rs"@
            ==> strings_view(r.symbols@) == picked_lines(
            contents.unwrap()@,
            LineFilter::RustSymbols,
            8,
        ),
        !(wants_contents(path@, size_bytes) && contents is Some && ext_or_empty(path@) == "rs"@)
            ==> r.symbols@.len() == 0,
        wants_contents(path@, size_bytes) && contents is Some ==> strings_view(r.preview@)
            == picked_lines(contents.unwrap()@, filter_for(ext_or_empty(path@)), 6),
        !(wants_contents(path@, size_bytes) && contents is Some) ==> r.preview@.len() == 0,
{
    let ext = match path_extension(path) {
        Some(e) => e,
        None => String::new(),
    };
    let ext_len = ext.as_str().unicode_len();
    let kind = if ext_len == 0 {
        crate::text::concat2("Kind: ", "file")
    } else {
        crate::text::concat2("Kind: ", ext.as_str())
    };
    let mut size_line = string_from("Size: ");
    let d = decimal_string(size_bytes);
    size_line.append(d.as_str());
    size_line.append(" bytes");
    let mut metadata = vec![kind, size_line];
    let ghost head = strings_view(metadata@);
    let title = label_for_path(path);
    let rel = relative_display_path(path, workspace_root);
    if !is_probably_text_file(path) {
        metadata.push(string_from("Preview: skipped binary/unknown type"));
        assert(strings_view(metadata@) =~= head.push("Preview: skipped binary/unknown type"@));
        return NodeContextPeek {
            title,
            path: rel,
            metadata,
            symbols: Vec::new(),
            related_files: Vec::new(),
            preview: Vec::new(),
        };
    }
    if size_bytes > PREVIEW_LIMIT_BYTES {
        metadata.push(string_from("Preview: skipped file over 128 KB"));
        assert(strings_view(metadata@) =~= head.push("Preview: skipped file over 128 KB"@));
        return NodeContextPeek {
            title,
            path: rel,
            metadata,
            symbols: Vec::new(),
            related_files: Vec::new(),
            preview: Vec::new(),
        };
    }
    let contents = match contents {
        Some(c) => c,
        None => {
            metadata.push(string_from("Preview: unreadable as text"));
            assert(strings_view(metadata@) =~= head.push("Preview: unreadable as text"@));
            return NodeContextPeek {
                title,
                path: rel,
                metadata,
                symbols: Vec::new(),
                related_files: Vec::new(),
                preview: Vec::new(),
            };
        },
    };
    let cv = chars_of(contents.as_str());
    let line_count = lines_of(&cv).len();
    metadata.push(labelled_count("Lines: ", line_count));
    assert(strings_view(metadata@) =~= head.push("Lines: "@ + decimal(lines(contents@).len())));
    let ev = chars_of(ext.as_str());
    let symbols = if eq_lit(&ev, "rs") {
        detect_rust_symbols(contents.as_str())
    } else {
        Vec::new()
    };
    let preview = declaration_preview(contents.as_str(), ext.as_str());
    NodeContextPeek { title, path: rel, metadata, symbols, related_files: Vec::new(), preview }
}

/// The files whose contents the peek shows are exactly those whose
/// extension is one of `rs`, `toml`, `md`, `txt`, `css`, `html`, `js`, `ts`,
/// `tsx`, `jsx`, `json`, `yaml`, `yml`, `xml` and `ron`.
pub proof fn law_text_file_extensions(p: Seq<char>)
    ensures
        is_text_path(p) <==> (extension(p) matches Some(e) && (e == "rs"@ || e == "toml"@ || e
            == "md"@ || e == "txt"@ || e == "css"@ || e == "html"@ || e == "js"@ || e == "ts"@
            || e == "tsx"@ || e == "jsx"@ || e == "json"@ || e == "yaml"@ || e == "yml"@ || e
            == "xml"@ || e == "ron"@)),
{
}

} // verus!
