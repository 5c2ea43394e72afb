//! The node file manager's view of a folder: which entries it shows, in
//! which order, with which labels, and the breadcrumbs to the folder.
use vstd::prelude::*;

use crate::paths::{
    components, file_name, file_name_chars, join_path, opt_view, path_components,
    path_file_name, path_join, path_strip_prefix, strings_view, stripped_prefix, to_lowercase,
    lowercase,
};
use crate::text::{chars_of, eq_lit, string_from, string_of, trim, trim_str};

verus! {

/// A folder entry as the file system described it when it was listed.
#[derive(Clone, Debug, PartialEq, Eq)]
pub struct ChildEntry {
    pub path: String,
    pub is_dir: bool,
    pub is_file: bool,
}

pub open spec fn placeholder_text() -> Seq<char> {
    "Awaiting filesystem initialization..."@
}

/// The workspace path shows no real folder yet: it is blank or still the
/// start-up placeholder.
pub fn is_placeholder_workspace(path: &str) -> (b: bool)
    ensures
        b == (trim(path@).len() == 0 || path@ == placeholder_text()),
{
    let t = trim_str(path);
    if t.as_str().unicode_len() == 0 {
        return true;
    }
    let v = chars_of(path);
    eq_lit(&v, "Awaiting filesystem initialization...")
}

/// Names of folders and files that the manager never shows.
pub open spec fn ignored_name(n: Seq<char>) -> bool {
    n == ".git"@ || n == "target"@ || n == "node_modules"@ || n == "dist"@ || n == "build"@ || n
        == ".next"@ || n == ".dioxus"@ || n == ".idea"@ || n == ".vscode"@ || n == "__pycache__"@
        || n == ".DS_Store"@
}

pub open spec fn ignored_path(p: Seq<char>) -> bool {
    match file_name(p) {
        Some(n) => ignored_name(n),
        None => false,
    }
}

fn ignored_name_exec(n: &Vec<char>) -> (b: bool)
    ensures
        b == ignored_name(n@),
{
    eq_lit(n, ".git") || eq_lit(n, "target") || eq_lit(n, "node_modules") || eq_lit(n, "dist")
        || eq_lit(n, "build") || eq_lit(n, ".next") || eq_lit(n, ".dioxus") || eq_lit(n, ".idea")
        || eq_lit(n, ".vscode") || eq_lit(n, "__pycache__") || eq_lit(n, ".DS_Store")
}

/// Whether the manager hides `path` whatever the settings.
pub fn should_ignore(path: &str) -> (b: bool)
    ensures
        b == ignored_path(path@),
{
    let v = chars_of(path);
    match file_name_chars(&v) {
        Some(n) => ignored_name_exec(&n),
        None => false,
    }
}

pub open spec fn label_text(p: Seq<char>) -> Seq<char> {
    match file_name(p) {
        Some(n) => n,
        None => "project root"@,
    }
}

/// The name shown for a node: its file name, or `project root`.
pub fn label_for_path(path: &str) -> (r: String)
    ensures
        r@ == label_text(path@),
{
    match path_file_name(path) {
        Some(n) => n,
        None => string_from("project root"),
    }
}

pub open spec fn relative_text(path: Seq<char>, root: Seq<char>) -> Seq<char> {
    match stripped_prefix(path, root) {
        Some(r) => r,
        None => path,
    }
}

/// `path` relative to `workspace_root`, or `path` itself when it lies
/// outside.
pub fn relative_display_path(path: &str, workspace_root: &str) -> (r: String)
    ensures
        r@ == relative_text(path@, workspace_root@),
{
    match path_strip_prefix(path, workspace_root) {
        Some(r) => r,
        None => string_from(path),
    }
}

/// `base`, then `base` extended by each component in turn.
pub open spec fn crumb_trail(base: Seq<char>, cs: Seq<Seq<char>>) -> Seq<Seq<char>>
    decreases cs.len(),
{
    if cs.len() == 0 {
        seq![base]
    } else {
        let prev = crumb_trail(base, cs.drop_last());
        prev.push(join_path(prev.last(), cs.last()))
    }
}

proof fn lemma_crumb_trail_len(base: Seq<char>, cs: Seq<Seq<char>>)
    ensures
        crumb_trail(base, cs).len() == cs.len() + 1,
        crumb_trail(base, cs)[0] == base,
    decreases cs.len(),
{
    if cs.len() > 0 {
        lemma_crumb_trail_len(base, cs.drop_last());
    }
}

/// The folders from the workspace root down to the current folder; just
/// the current folder when it is not under the root.
pub open spec fn breadcrumbs(root: Seq<char>, current: Seq<char>) -> Seq<Seq<char>> {
    match stripped_prefix(current, root) {
        None => seq![current],
        Some(rel) => crumb_trail(root, components(rel)),
    }
}

pub fn breadcrumbs_for(root: &str, current_dir: &str) -> (r: Vec<String>)
    ensures
        strings_view(r@) == breadcrumbs(root@, current_dir@),
{
    let relative = match path_strip_prefix(current_dir, root) {
        None => {
            let v = vec![string_from(current_dir)];
            assert(strings_view(v@) =~= seq![current_dir@]);
            return v;
        },
        Some(rel) => rel,
    };
    let comps = path_components(relative.as_str());
    let ghost cv = strings_view(comps@);
    let mut crumbs: Vec<String> = vec![string_from(root)];
    let mut cursor = string_from(root);
    let mut i: usize = 0;
    assert(cv.take(0) =~= Seq::<Seq<char>>::empty());
    assert(strings_view(crumbs@) =~= seq![root@]);
    while i < comps.len()
        invariant
            i <= comps.len(),
            cv == strings_view(comps@),
            cv == components(relative@),
            strings_view(crumbs@) == crumb_trail(root@, cv.take(i as int)),
            cursor@ == crumb_trail(root@, cv.take(i as int)).last(),
        decreases comps.len() - i,
    {
        proof {
            lemma_crumb_trail_len(root@, cv.take(i as int));
        }
        assert(cv.take(i + 1).drop_last() =~= cv.take(i as int));
        assert(cv.take(i + 1).last() == comps@[i as int]@);
        cursor = path_join(cursor.as_str(), comps[i].as_str());
        let ghost old_crumbs = strings_view(crumbs@);
        crumbs.push(cursor.clone());
        assert(strings_view(crumbs@) =~= old_crumbs.push(cursor@));
        i = i + 1;
    }
    assert(cv.take(comps.len() as int) =~= cv);
    crumbs
}

// ---------------------------------------------------------------------------
// Which entries are shown, and in which order
// ---------------------------------------------------------------------------

pub open spec fn is_hidden_name(n: Seq<char>) -> bool {
    n.len() > 0 && n[0] == '.'
}

/// An entry is shown unless its name is ignored, or it is a dotfile while
/// dotfiles are hidden.
pub open spec fn keep_child(path: Seq<char>, show_hidden: bool) -> bool {
    !ignored_path(path) && (show_hidden || match file_name(path) {
        Some(n) => !is_hidden_name(n),
        None => true,
    })
}

pub open spec fn kept(es: Seq<ChildEntry>, show_hidden: bool) -> Seq<ChildEntry>
    decreases es.len(),
{
    if es.len() == 0 {
        seq![]
    } else if keep_child(es.last().path@, show_hidden) {
        kept(es.drop_last(), show_hidden).push(es.last())
    } else {
        kept(es.drop_last(), show_hidden)
    }
}

/// Lexicographic order of characters by code point (the order of `str`).
pub open spec fn seq_le(a: Seq<char>, b: Seq<char>) -> bool
    decreases a.len(),
{
    if a.len() == 0 {
        true
    } else if b.len() == 0 {
        false
    } else if (a[0] as u32) < (b[0] as u32) {
        true
    } else if (a[0] as u32) > (b[0] as u32) {
        false
    } else {
        seq_le(a.drop_first(), b.drop_first())
    }
}

/// The name by which entries are ordered: the lowercase file name.
pub open spec fn name_key(path: Seq<char>) -> Seq<char> {
    lowercase(
        match file_name(path) {
            Some(n) => n,
            None => seq![],
        },
    )
}

/// Folders before files; within each, by lowercase name.
pub open spec fn entry_le(a: ChildEntry, b: ChildEntry) -> bool {
    (a.is_dir && !b.is_dir) || (a.is_dir == b.is_dir && seq_le(name_key(a.path@), name_key(b.path@)))
}

pub open spec fn sorted_entries(s: Seq<ChildEntry>) -> bool {
    forall|i: int, j: int| 0 <= i < j < s.len() ==> entry_le(#[trigger] s[i], #[trigger] s[j])
}

/// Two entries that the order does not tell apart: both folders or both
/// not, with the same lowercase name.
pub open spec fn same_key(a: ChildEntry, b: ChildEntry) -> bool {
    a.is_dir == b.is_dir && name_key(a.path@) == name_key(b.path@)
}

/// The entries of `s` that the order does not tell apart from `e`, in
/// their order in `s`.
pub open spec fn key_class(s: Seq<ChildEntry>, e: ChildEntry) -> Seq<ChildEntry>
    decreases s.len(),
{
    if s.len() == 0 {
        seq![]
    } else if same_key(s.last(), e) {
        key_class(s.drop_last(), e).push(s.last())
    } else {
        key_class(s.drop_last(), e)
    }
}

/// A stable ordering of `input`: sorted, and the entries that the order
/// does not tell apart keep their order from `input`.
pub open spec fn stably_sorted(r: Seq<ChildEntry>, input: Seq<ChildEntry>) -> bool {
    &&& sorted_entries(r)
    &&& forall|e: ChildEntry| #[trigger] key_class(r, e) == key_class(input, e)
}

proof fn lemma_key_class_concat(a: Seq<ChildEntry>, b: Seq<ChildEntry>, e: ChildEntry)
    ensures
        key_class(a + b, e) == key_class(a, e) + key_class(b, e),
    decreases b.len(),
{
    if b.len() == 0 {
        assert(a + b =~= a);
        assert(key_class(b, e) =~= Seq::<ChildEntry>::empty());
    } else {
        lemma_key_class_concat(a, b.drop_last(), e);
        assert((a + b).drop_last() =~= a + b.drop_last());
        assert((a + b).last() == b.last());
    }
}

proof fn lemma_key_class_none(s: Seq<ChildEntry>, e: ChildEntry)
    requires
        forall|k: int| 0 <= k < s.len() ==> !same_key(#[trigger] s[k], e),
    ensures
        key_class(s, e) == Seq::<ChildEntry>::empty(),
    decreases s.len(),
{
    if s.len() > 0 {
        lemma_key_class_none(s.drop_last(), e);
        assert(!same_key(s[s.len() - 1], e));
    }
}

proof fn lemma_same_key_of_le(a: ChildEntry, b: ChildEntry)
    requires
        same_key(a, b),
    ensures
        entry_le(a, b),
        entry_le(b, a),
        forall|c: ChildEntry| same_key(b, c) ==> #[trigger] same_key(a, c),
{
    lemma_seq_le_refl(name_key(a.path@));
}

proof fn lemma_seq_le_refl(a: Seq<char>)
    ensures
        seq_le(a, a),
    decreases a.len(),
{
    if a.len() > 0 {
        lemma_seq_le_refl(a.drop_first());
    }
}

proof fn lemma_seq_le_total(a: Seq<char>, b: Seq<char>)
    ensures
        seq_le(a, b) || seq_le(b, a),
    decreases a.len(),
{
    if a.len() > 0 && b.len() > 0 && (a[0] as u32) == (b[0] as u32) {
        lemma_seq_le_total(a.drop_first(), b.drop_first());
    }
}

proof fn lemma_seq_le_trans(a: Seq<char>, b: Seq<char>, c: Seq<char>)
    requires
        seq_le(a, b),
        seq_le(b, c),
    ensures
        seq_le(a, c),
    decreases a.len(),
{
    if a.len() > 0 && b.len() > 0 && c.len() > 0 && (a[0] as u32) == (b[0] as u32) && (b[0] as u32)
        == (c[0] as u32) {
        lemma_seq_le_trans(a.drop_first(), b.drop_first(), c.drop_first());
    }
}

proof fn lemma_entry_le_total(a: ChildEntry, b: ChildEntry)
    ensures
        entry_le(a, b) || entry_le(b, a),
{
    lemma_seq_le_total(name_key(a.path@), name_key(b.path@));
}

proof fn lemma_entry_le_trans(a: ChildEntry, b: ChildEntry, c: ChildEntry)
    requires
        entry_le(a, b),
        entry_le(b, c),
    ensures
        entry_le(a, c),
{
    if a.is_dir == b.is_dir && b.is_dir == c.is_dir {
        lemma_seq_le_trans(name_key(a.path@), name_key(b.path@), name_key(c.path@));
    }
}

fn seq_le_exec(a: &Vec<char>, b: &Vec<char>) -> (r: bool)
    ensures
        r == seq_le(a@, b@),
{
    let mut i: usize = 0;
    assert(a@.skip(0) =~= a@);
    assert(b@.skip(0) =~= b@);
    loop
        invariant
            i <= a.len(),
            i <= b.len(),
            seq_le(a@, b@) == seq_le(a@.skip(i as int), b@.skip(i as int)),
        decreases a.len() - i,
    {
        if i == a.len() {
            return true;
        }
        if i == b.len() {
            return false;
        }
        let x = a[i] as u32;
        let y = b[i] as u32;
        assert(a@.skip(i as int)[0] == a@[i as int]);
        assert(b@.skip(i as int)[0] == b@[i as int]);
        if x < y {
            return true;
        }
        if x > y {
            return false;
        }
        assert(a@.skip(i as int).drop_first() =~= a@.skip(i + 1));
        assert(b@.skip(i as int).drop_first() =~= b@.skip(i + 1));
        i = i + 1;
    }
}

fn copy_entry(e: &ChildEntry) -> (r: ChildEntry)
    ensures
        r == *e,
{
    ChildEntry { path: e.path.clone(), is_dir: e.is_dir, is_file: e.is_file }
}

fn entry_le_exec(a: &ChildEntry, ka: &Vec<char>, b: &ChildEntry, kb: &Vec<char>) -> (r: bool)
    requires
        ka@ == name_key(a.path@),
        kb@ == name_key(b.path@),
    ensures
        r == entry_le(*a, *b),
{
    (a.is_dir && !b.is_dir) || (a.is_dir == b.is_dir && seq_le_exec(ka, kb))
}

fn name_key_exec(path: &str) -> (r: Vec<char>)
    ensures
        r@ == name_key(path@),
{
    let name = match path_file_name(path) {
        Some(n) => n,
        None => String::new(),
    };
    let low = to_lowercase(name.as_str());
    chars_of(low.as_str())
}

/// `entries` ordered as the manager lists them: folders first, each group
/// by lowercase name; entries that this order does not tell apart keep
/// their order.
pub fn sort_entries(entries: Vec<ChildEntry>) -> (r: Vec<ChildEntry>)
    ensures
        r@.to_multiset() == entries@.to_multiset(),
        stably_sorted(r@, entries@),
{
    let mut out: Vec<ChildEntry> = Vec::new();
    let mut keys: Vec<Vec<char>> = Vec::new();
    let mut i: usize = 0;
    assert(entries@.take(0) =~= Seq::<ChildEntry>::empty());
    while i < entries.len()
        invariant
            i <= entries.len(),
            out.len() == keys.len(),
            forall|k: int| 0 <= k < keys.len() ==> (#[trigger] keys@[k])@ == name_key(out@[k].path@),
            out@.to_multiset() == entries@.take(i as int).to_multiset(),
            sorted_entries(out@),
            forall|c: ChildEntry| #[trigger] key_class(out@, c) == key_class(entries@.take(i as int), c),
        decreases entries.len() - i,
    {
        assert(entries@.take(i + 1) =~= entries@.take(i as int).push(entries@[i as int]));
        let e = copy_entry(&entries[i]);
        let key = name_key_exec(e.path.as_str());
        let mut j: usize = 0;
        while j < out.len() && entry_le_exec(&out[j], &keys[j], &e, &key)
            invariant
                j <= out.len(),
                out.len() == keys.len(),
                forall|k: int| 0 <= k < keys.len() ==> (#[trigger] keys@[k])@ == name_key(out@[k].path@),
                key@ == name_key(e.path@),
                forall|k: int| 0 <= k < j ==> entry_le(#[trigger] out@[k], e),
            decreases out.len() - j,
        {
            j = j + 1;
        }
        proof {
            if j < out.len() {
                lemma_entry_le_total(out@[j as int], e);
            }
            assert forall|k: int| j <= k < out.len() implies entry_le(e, #[trigger] out@[k]) by {
                if k > j {
                    lemma_entry_le_trans(e, out@[j as int], out@[k]);
                }
            }
        }
        let ghost old_out = out@;
        out.insert(j, e);
        keys.insert(j, key);
        proof {
            vstd::seq_lib::to_multiset_insert(old_out, j as int, e);
            vstd::seq_lib::to_multiset_build(entries@.take(i as int), e);
            assert forall|a: int, b: int| 0 <= a < b < out@.len() implies entry_le(
                #[trigger] out@[a],
                #[trigger] out@[b],
            ) by {
                if a < j && b == j {
                } else if a == j && b > j {
                    assert(out@[b] == old_out[b - 1]);
                } else if a < j && b > j {
                    assert(out@[b] == old_out[b - 1]);
                } else if b < j {
                } else {
                    assert(out@[a] == old_out[a - 1]);
                    assert(out@[b] == old_out[b - 1]);
                }
            }
            assert forall|k: int| 0 <= k < keys.len() implies (#[trigger] keys@[k])@ == name_key(
                out@[k].path@,
            ) by {
                if k > j {
                    assert(out@[k] == old_out[k - 1]);
                }
            }
            lemma_insert_keeps_classes(old_out, j as int, e, entries@.take(i as int));
            assert(out@ =~= old_out.take(j as int) + seq![e] + old_out.skip(j as int));
        }
        i = i + 1;
    }
    assert(entries@.take(entries.len() as int) =~= entries@);
    out
}

/// Inserting `e` at `j`, after every entry ordered before it and before
/// every entry ordered after it, appends `e` to its class and keeps the
/// other classes.
proof fn lemma_insert_keeps_classes(old_out: Seq<ChildEntry>, j: int, e: ChildEntry, input: Seq<ChildEntry>)
    requires
        0 <= j <= old_out.len(),
        sorted_entries(old_out),
        j < old_out.len() ==> !entry_le(old_out[j], e),
        forall|c: ChildEntry| #[trigger] key_class(old_out, c) == key_class(input, c),
    ensures
        forall|c: ChildEntry|
            #[trigger] key_class(old_out.take(j) + seq![e] + old_out.skip(j), c) == key_class(input.push(e), c),
{
    let pre = old_out.take(j);
    let post = old_out.skip(j);
    assert(old_out =~= pre + post);
    assert forall|k: int| 0 <= k < post.len() implies !same_key(#[trigger] post[k], e) by {
        if same_key(post[k], e) {
            lemma_same_key_of_le(post[k], e);
            if k > 0 {
                assert(entry_le(old_out[j], old_out[j + k]));
                lemma_entry_le_trans(old_out[j], old_out[j + k], e);
            }
        }
    }
    assert forall|c: ChildEntry|
        #[trigger] key_class(old_out.take(j) + seq![e] + old_out.skip(j), c) == key_class(input.push(e), c) by {
        lemma_key_class_concat(pre, post, c);
        lemma_key_class_concat(pre + seq![e], post, c);
        lemma_key_class_concat(pre, seq![e], c);
        assert(seq![e].drop_last() =~= Seq::<ChildEntry>::empty());
        assert(seq![e].last() == e);
        assert(key_class(seq![e].drop_last(), c) =~= Seq::<ChildEntry>::empty());
        assert(input.push(e).drop_last() =~= input);
        assert(input.push(e).last() == e);
        assert(key_class(old_out, c) == key_class(input, c));
        assert(key_class(old_out, c) == key_class(pre, c) + key_class(post, c));
        if same_key(e, c) {
            assert forall|k: int| 0 <= k < post.len() implies !same_key(#[trigger] post[k], c) by {
                if same_key(post[k], c) {
                    assert(same_key(post[k], e));
                }
            }
            lemma_key_class_none(post, c);
            assert(key_class(seq![e], c) =~= seq![e]);
            assert(key_class(input.push(e), c) == key_class(input, c).push(e));
            assert(key_class(pre, c) + Seq::<ChildEntry>::empty() =~= key_class(pre, c));
            assert(key_class(pre, c) + seq![e] =~= key_class(pre, c).push(e));
        } else {
            assert(key_class(seq![e], c) =~= Seq::<ChildEntry>::empty());
            assert(key_class(input.push(e), c) == key_class(input, c));
            assert(key_class(pre, c) + Seq::<ChildEntry>::empty() =~= key_class(pre, c));
        }
    }
}

/// Whether the manager shows the entry at `path`.
pub fn keep_child_exec(path: &str, show_hidden: bool) -> (b: bool)
    ensures
        b == keep_child(path@, show_hidden),
{
    if should_ignore(path) {
        return false;
    }
    if show_hidden {
        return true;
    }
    let v = chars_of(path);
    match file_name_chars(&v) {
        Some(n) => !(n.len() > 0 && n[0] == '.'),
        None => true,
    }
}

/// The entries of a folder as the manager shows them: without ignored
/// names, without dotfiles unless `show_hidden`, folders first, each group
/// by lowercase name, ties in their listed order.
pub fn arrange_children(entries: Vec<ChildEntry>, show_hidden: bool) -> (r: Vec<ChildEntry>)
    ensures
        r@.to_multiset() == kept(entries@, show_hidden).to_multiset(),
        stably_sorted(r@, kept(entries@, show_hidden)),
{
    let mut shown: Vec<ChildEntry> = Vec::new();
    let mut i: usize = 0;
    assert(entries@.take(0) =~= Seq::<ChildEntry>::empty());
    while i < entries.len()
        invariant
            i <= entries.len(),
            shown@ == kept(entries@.take(i as int), show_hidden),
        decreases entries.len() - i,
    {
        assert(entries@.take(i + 1).drop_last() =~= entries@.take(i as int));
        assert(entries@.take(i + 1).last() == entries@[i as int]);
        if keep_child_exec(entries[i].path.as_str(), show_hidden) {
            shown.push(copy_entry(&entries[i]));
        }
        i = i + 1;
    }
    assert(entries@.take(entries.len() as int) =~= entries@);
    sort_entries(shown)
}

proof fn lemma_kept_within(es: Seq<ChildEntry>, show_hidden: bool)
    ensures
        forall|e: ChildEntry| kept(es, show_hidden).contains(e) ==> es.contains(e),
    decreases es.len(),
{
    if es.len() > 0 {
        lemma_kept_within(es.drop_last(), show_hidden);
        assert forall|e: ChildEntry| kept(es, show_hidden).contains(e) implies es.contains(e) by {
            let k = choose|k: int| 0 <= k < kept(es, show_hidden).len() && kept(es, show_hidden)[k] == e;
            if keep_child(es.last().path@, show_hidden) && k == kept(es, show_hidden).len() - 1 {
                assert(es[es.len() - 1] == e);
            } else {
                assert(kept(es.drop_last(), show_hidden)[k] == e);
                assert(kept(es.drop_last(), show_hidden).contains(e));
                assert(es.drop_last().contains(e));
                let j = choose|j: int| 0 <= j < es.drop_last().len() && es.drop_last()[j] == e;
                assert(es.drop_last()[j] == es[j]);
                assert(es[j] == e);
            }
        }
    }
}

/// Hiding dotfiles only removes entries: the entries shown with dotfiles
/// hidden are those shown with dotfiles visible, less the dotfiles, in the
/// same order; so each of them is also shown with dotfiles visible.
pub proof fn law_hiding_dotfiles_only_removes(es: Seq<ChildEntry>)
    ensures
        kept(es, false) == kept(kept(es, true), false),
        forall|e: ChildEntry| kept(es, false).contains(e) ==> kept(es, true).contains(e),
    decreases es.len(),
{
    if es.len() > 0 {
        law_hiding_dotfiles_only_removes(es.drop_last());
        let x = es.last();
        if keep_child(x.path@, true) {
            assert(kept(es, true).drop_last() =~= kept(es.drop_last(), true));
            assert(kept(es, true).last() == x);
        }
    }
    lemma_kept_within(kept(es, true), false);
}

} // verus!
