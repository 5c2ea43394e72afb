//! Paths as character sequences, with the component rules of `std::path`
//! on Unix: `/` separates components, repeated separators and `.`
//! components are ignored except a leading `.`, a trailing separator is
//! ignored, `..` is a component of its own.
use vstd::prelude::*;

use crate::text::{chars_of, eq_lit, slice_chars, string_of};

verus! {

/// A component of a path, as `std::path::Component` distinguishes them.
pub enum PathComp {
    Normal(Seq<char>),
    ParentDir,
    CurDir,
    RootDir,
}

pub open spec fn opt_view(o: Option<String>) -> Option<Seq<char>> {
    match o {
        Some(s) => Some(s@),
        None => None,
    }
}

pub open spec fn has_root(p: Seq<char>) -> bool {
    p.len() > 0 && p[0] == '/'
}

/// A relative path that starts with the component `.`.
pub open spec fn leading_cur_dir(p: Seq<char>) -> bool {
    !has_root(p) && p.len() > 0 && p[0] == '.' && (p.len() == 1 || p[1] == '/')
}

/// Length of the root or leading `.` that precedes the other components.
pub open spec fn before_body(p: Seq<char>) -> nat {
    if has_root(p) || leading_cur_dir(p) {
        1
    } else {
        0
    }
}

/// Start of the last segment of `p` that begins at or after `lo`: the
/// position after the last `/` at index `lo` or later, else `lo`.
pub open spec fn seg_start(p: Seq<char>, lo: nat) -> nat
    decreases p.len(),
{
    if p.len() > lo && p.last() != '/' {
        seg_start(p.drop_last(), lo)
    } else {
        if p.len() < lo {
            lo
        } else {
            p.len()
        }
    }
}

/// A segment that names no component: empty or `.`.
pub open spec fn is_skipped(seg: Seq<char>) -> bool {
    seg.len() == 0 || seg == seq!['.']
}

pub open spec fn is_dotdot(seg: Seq<char>) -> bool {
    seg == seq!['.', '.']
}

pub proof fn lemma_seg_start(p: Seq<char>, lo: nat)
    requires
        lo <= p.len(),
    ensures
        lo <= seg_start(p, lo) <= p.len(),
        seg_start(p, lo) > lo ==> p[seg_start(p, lo) - 1] == '/',
        forall|k: int| seg_start(p, lo) <= k < p.len() ==> p[k] != '/',
    decreases p.len(),
{
    if p.len() > lo && p.last() != '/' {
        lemma_seg_start(p.drop_last(), lo);
        assert forall|k: int| seg_start(p, lo) <= k < p.len() implies p[k] != '/' by {
            if k < p.len() - 1 {
                assert(p.drop_last()[k] == p[k]);
            }
        }
    }
}

proof fn lemma_seg_start_at(p: Seq<char>, lo: nat, m: nat)
    requires
        lo <= m <= p.len(),
        forall|k: int| m <= k < p.len() ==> p[k] != '/',
        m == lo || p[m - 1] == '/',
    ensures
        seg_start(p, lo) == m,
    decreases p.len(),
{
    if p.len() > m {
        assert forall|k: int| m <= k < p.drop_last().len() implies p.drop_last()[k] != '/' by {
            assert(p.drop_last()[k] == p[k]);
        }
        if m > lo {
            assert(p.drop_last()[m - 1] == p[m - 1]);
        }
        lemma_seg_start_at(p.drop_last(), lo, m);
    }
}

/// A name that is one normal component: not empty, without `/`, and
/// neither `.` nor `..`.
pub open spec fn is_plain_name(name: Seq<char>) -> bool {
    &&& name.len() > 0
    &&& forall|k: int| 0 <= k < name.len() ==> name[k] != '/'
    &&& name != seq!['.']
    &&& name != seq!['.', '.']
}

proof fn lemma_file_name_after(x: Seq<char>, name: Seq<char>)
    requires
        is_plain_name(name),
        x.len() == 0 || x.last() == '/',
    ensures
        file_name(x + name) == Some(name),
{
    let p = x + name;
    let bb = before_body(p);
    if x.len() == 0 {
        assert(p =~= name);
        if name[0] == '.' && name.len() > 1 {
            assert(name[1] != '/');
        }
        if name.len() == 1 && name[0] == '.' {
            assert(name =~= seq!['.']);
        }
        assert(bb == 0);
    } else {
        assert(bb <= 1);
    }
    assert forall|k: int| x.len() <= k < p.len() implies p[k] != '/' by {
        assert(p[k] == name[k - x.len()]);
    }
    if x.len() > 0 {
        assert(p[x.len() - 1] == x.last());
    }
    lemma_seg_start_at(p, bb, x.len());
    assert(p.skip(x.len() as int) =~= name);
}

/// Joining a plain name onto any folder gives a path whose file name is
/// that name.
pub proof fn lemma_file_name_of_join(dir: Seq<char>, name: Seq<char>)
    requires
        is_plain_name(name),
    ensures
        file_name(join_path(dir, name)) == Some(name),
        file_name(name) == Some(name),
{
    lemma_file_name_after(Seq::<char>::empty(), name);
    assert(Seq::<char>::empty() + name =~= name);
    assert(name[0] != '/');
    if dir.len() > 0 && dir.last() != '/' {
        let x = dir + seq!['/'];
        lemma_file_name_after(x, name);
        assert(dir + seq!['/'] + name =~= x + name);
    } else {
        lemma_file_name_after(dir, name);
    }
}

/// The last component of `p` and the length of what precedes it, as
/// `Components::next_back` finds them; `None` for the empty path.
pub open spec fn next_back(p: Seq<char>) -> Option<(PathComp, nat)>
    decreases p.len(),
{
    let bb = before_body(p);
    if p.len() > bb {
        let st = seg_start(p, bb);
        let seg = p.skip(st as int);
        let rest: nat = if st > bb {
            (st - 1) as nat
        } else {
            st
        };
        if is_skipped(seg) {
            proof {
                lemma_seg_start(p, bb);
            }
            next_back(p.take(rest as int))
        } else if is_dotdot(seg) {
            Some((PathComp::ParentDir, rest))
        } else {
            Some((PathComp::Normal(seg), rest))
        }
    } else if has_root(p) {
        Some((PathComp::RootDir, 0))
    } else if leading_cur_dir(p) {
        Some((PathComp::CurDir, (p.len() - 1) as nat))
    } else {
        None
    }
}

/// `p` without trailing separators and `.` components (not below its root).
pub open spec fn trim_right(p: Seq<char>) -> Seq<char>
    decreases p.len(),
{
    let bb = before_body(p);
    if p.len() > bb {
        let st = seg_start(p, bb);
        let seg = p.skip(st as int);
        let rest: nat = if st > bb {
            (st - 1) as nat
        } else {
            st
        };
        if is_skipped(seg) {
            proof {
                lemma_seg_start(p, bb);
            }
            trim_right(p.take(rest as int))
        } else {
            p
        }
    } else {
        p
    }
}

/// `Path::file_name`: the last component if it is a normal one.
pub open spec fn file_name(p: Seq<char>) -> Option<Seq<char>> {
    match next_back(p) {
        Some((PathComp::Normal(s), _)) => Some(s),
        _ => None,
    }
}

/// `Path::parent`: the path without its last component; none for the
/// empty path and for the root.
pub open spec fn parent(p: Seq<char>) -> Option<Seq<char>> {
    match next_back(p) {
        Some((PathComp::Normal(_), r)) => Some(trim_right(p.take(r as int))),
        Some((PathComp::ParentDir, r)) => Some(trim_right(p.take(r as int))),
        Some((PathComp::CurDir, r)) => Some(p.take(r as int)),
        _ => None,
    }
}

/// `Path::join` on Unix: an absolute `q` replaces `base`; otherwise `q`
/// follows `base`, with a separator between unless `base` is empty or
/// already ends with one.
pub open spec fn join_path(base: Seq<char>, q: Seq<char>) -> Seq<char> {
    if has_root(q) {
        q
    } else if base.len() > 0 && base.last() != '/' {
        base + seq!['/'] + q
    } else {
        base + q
    }
}

pub open spec fn is_absolute(p: Seq<char>) -> bool {
    has_root(p)
}

/// Position of the last `.` in `f`, or -1.
pub open spec fn last_dot(f: Seq<char>) -> int
    decreases f.len(),
{
    if f.len() == 0 {
        -1
    } else if f.last() == '.' {
        f.len() - 1
    } else {
        last_dot(f.drop_last())
    }
}

/// The part of a file name before its extension (`Path::file_stem` on the
/// file name): the name up to its last `.`, unless that `.` is the first
/// character or there is none.
pub open spec fn stem_of(f: Seq<char>) -> Seq<char> {
    let d = last_dot(f);
    if d <= 0 {
        f
    } else {
        f.take(d)
    }
}

/// The extension of a file name (`Path::extension` on the file name): what
/// follows its last `.`, when that `.` is not the first character.
pub open spec fn extension_of(f: Seq<char>) -> Option<Seq<char>> {
    let d = last_dot(f);
    if d <= 0 {
        None
    } else {
        Some(f.skip(d + 1))
    }
}

pub open spec fn file_stem(p: Seq<char>) -> Option<Seq<char>> {
    match file_name(p) {
        Some(f) => Some(stem_of(f)),
        None => None,
    }
}

pub open spec fn extension(p: Seq<char>) -> Option<Seq<char>> {
    match file_name(p) {
        Some(f) => extension_of(f),
        None => None,
    }
}

/// The text of a component, as `Component::as_os_str` gives it.
pub open spec fn comp_text(c: PathComp) -> Seq<char> {
    match c {
        PathComp::Normal(s) => s,
        PathComp::ParentDir => seq!['.', '.'],
        PathComp::CurDir => seq!['.'],
        PathComp::RootDir => seq!['/'],
    }
}

/// The texts of the components of `p`, first to last (`Path::components`).
pub open spec fn components(p: Seq<char>) -> Seq<Seq<char>>
    decreases p.len(),
{
    match next_back(p) {
        None => seq![],
        Some((c, r)) => {
            proof {
                lemma_next_back_rest(p);
            }
            if r < p.len() {
                components(p.take(r as int)) + seq![comp_text(c)]
            } else {
                seq![]
            }
        },
    }
}

/// The path that remains of `path` once the components of `base` are taken
/// off its front, as `Path::strip_prefix` gives it; `None` when `base` is
/// not a prefix of `path` component by component.
pub uninterp spec fn stripped_prefix(path: Seq<char>, base: Seq<char>) -> Option<Seq<char>>;

/// `Path::strip_prefix`, its result shown with `Path::display`. The
/// contract says only that the result is the one `stripped_prefix` names.
#[verifier::external_body]
pub(crate) fn path_strip_prefix(path: &str, base: &str) -> (r: Option<String>)
    ensures
        opt_view(r) == stripped_prefix(path@, base@),
{
    match std::path::Path::new(path).strip_prefix(base) {
        Ok(rel) => Some(rel.display().to_string()),
        Err(_) => None,
    }
}

/// The lowercase form of `s` (Unicode `Lowercase` mapping).
pub uninterp spec fn lowercase(s: Seq<char>) -> Seq<char>;

/// `str::to_lowercase`. The contract says only that the result is the one
/// `lowercase` names.
#[verifier::external_body]
pub(crate) fn to_lowercase(s: &str) -> (r: String)
    ensures
        r@ == lowercase(s@),
{
    s.to_lowercase()
}

// ---------------------------------------------------------------------------
// Lemmas
// ---------------------------------------------------------------------------

proof fn lemma_last_dot(f: Seq<char>)
    ensures
        -1 <= last_dot(f) < f.len(),
        last_dot(f) >= 0 ==> f[last_dot(f)] == '.',
        forall|k: int| last_dot(f) < k < f.len() ==> f[k] != '.',
    decreases f.len(),
{
    if f.len() > 0 && f.last() != '.' {
        lemma_last_dot(f.drop_last());
        assert forall|k: int| last_dot(f) < k < f.len() implies f[k] != '.' by {
            if k < f.len() - 1 {
                assert(f.drop_last()[k] == f[k]);
            }
        }
    }
}

/// What `next_back` leaves in front of the component is shorter than the path.
pub proof fn lemma_next_back_rest(p: Seq<char>)
    ensures
        next_back(p) matches Some((_, r)) ==> r < p.len(),
    decreases p.len(),
{
    let bb = before_body(p);
    if p.len() > bb {
        lemma_seg_start(p, bb);
        let st = seg_start(p, bb);
        let rest: nat = if st > bb {
            (st - 1) as nat
        } else {
            st
        };
        if is_skipped(p.skip(st as int)) {
            lemma_next_back_rest(p.take(rest as int));
        }
    }
}

pub proof fn lemma_trim_right_len(p: Seq<char>)
    ensures
        trim_right(p).len() <= p.len(),
        trim_right(p) == p.take(trim_right(p).len() as int),
    decreases p.len(),
{
    let bb = before_body(p);
    if p.len() > bb {
        lemma_seg_start(p, bb);
        let st = seg_start(p, bb);
        let rest: nat = if st > bb {
            (st - 1) as nat
        } else {
            st
        };
        if is_skipped(p.skip(st as int)) {
            lemma_trim_right_len(p.take(rest as int));
            assert(trim_right(p) =~= p.take(trim_right(p).len() as int));
        } else {
            assert(p =~= p.take(p.len() as int));
        }
    } else {
        assert(p =~= p.take(p.len() as int));
    }
}

/// A parent is strictly shorter than the path it belongs to.
pub proof fn lemma_parent_shorter(p: Seq<char>)
    ensures
        parent(p) matches Some(q) ==> q.len() < p.len(),
{
    lemma_next_back_rest(p);
    match next_back(p) {
        Some((_, r)) => {
            lemma_trim_right_len(p.take(r as int));
        },
        None => {},
    }
}

// ---------------------------------------------------------------------------
// Executable functions
// ---------------------------------------------------------------------------

/// What `next_back_at` found: the kind of the last component, the bounds
/// of its text for a normal component, and the length in front of it.
pub struct BackStep {
    pub kind: u8,
    pub seg_from: usize,
    pub seg_to: usize,
    pub rest: usize,
}

pub open spec fn step_matches(p: Seq<char>, s: BackStep) -> bool {
    match next_back(p) {
        None => s.kind == 0,
        Some((PathComp::Normal(seg), r)) => s.kind == 1 && s.seg_from <= s.seg_to <= p.len()
            && seg == p.subrange(s.seg_from as int, s.seg_to as int) && s.rest == r,
        Some((PathComp::ParentDir, r)) => s.kind == 2 && s.rest == r,
        Some((PathComp::CurDir, r)) => s.kind == 3 && s.rest == r,
        Some((PathComp::RootDir, r)) => s.kind == 4 && s.rest == r,
    }
}

fn before_body_exec(p: &Vec<char>, m: usize) -> (b: usize)
    requires
        m <= p.len(),
    ensures
        b == before_body(p@.take(m as int)),
{
    if m > 0 && p[0] == '/' {
        1
    } else if m > 0 && p[0] == '.' && (m == 1 || p[1] == '/') {
        1
    } else {
        0
    }
}

fn seg_start_exec(p: &Vec<char>, m: usize, lo: usize) -> (j: usize)
    requires
        lo <= m <= p.len(),
    ensures
        j == seg_start(p@.take(m as int), lo as nat),
        lo <= j <= m,
{
    let mut j = m;
    while j > lo && p[j - 1] != '/'
        invariant
            lo <= j <= m <= p.len(),
            seg_start(p@.take(m as int), lo as nat) == seg_start(p@.take(j as int), lo as nat),
        decreases j,
    {
        assert(p@.take(j as int).drop_last() =~= p@.take(j - 1));
        j = j - 1;
    }
    j
}

fn is_skipped_exec(p: &Vec<char>, from: usize, to: usize) -> (b: bool)
    requires
        from <= to <= p.len(),
    ensures
        b == is_skipped(p@.subrange(from as int, to as int)),
{
    let seg = Ghost(p@.subrange(from as int, to as int));
    if from == to {
        true
    } else if to - from == 1 && p[from] == '.' {
        assert(seg@ =~= seq!['.']);
        true
    } else {
        assert(seg@.len() == 1 ==> seg@[0] == p@[from as int]);
        false
    }
}

fn is_dotdot_exec(p: &Vec<char>, from: usize, to: usize) -> (b: bool)
    requires
        from <= to <= p.len(),
    ensures
        b == is_dotdot(p@.subrange(from as int, to as int)),
{
    let seg = Ghost(p@.subrange(from as int, to as int));
    if to - from == 2 && p[from] == '.' && p[from + 1] == '.' {
        assert(seg@ =~= seq!['.', '.']);
        true
    } else {
        assert(seg@.len() == 2 ==> seg@[0] == p@[from as int] && seg@[1] == p@[from + 1]);
        false
    }
}

/// The last component of the first `n` characters of `p`.
pub fn next_back_at(p: &Vec<char>, n: usize) -> (s: BackStep)
    requires
        n <= p.len(),
    ensures
        step_matches(p@.take(n as int), s),
{
    let mut m = n;
    loop
        invariant
            m <= n <= p.len(),
            next_back(p@.take(m as int)) == next_back(p@.take(n as int)),
        decreases m,
    {
        let ghost q = p@.take(m as int);
        let bb = before_body_exec(p, m);
        if m > bb {
            let st = seg_start_exec(p, m, bb);
            proof {
                lemma_seg_start(q, bb as nat);
            }
            let rest = if st > bb {
                st - 1
            } else {
                st
            };
            assert(q.skip(st as int) =~= p@.subrange(st as int, m as int));
            assert(q.take(rest as int) =~= p@.take(rest as int));
            if is_skipped_exec(p, st, m) {
                m = rest;
            } else if is_dotdot_exec(p, st, m) {
                return BackStep { kind: 2, seg_from: st, seg_to: m, rest };
            } else {
                assert(p@.take(n as int).subrange(st as int, m as int) =~= p@.subrange(
                    st as int,
                    m as int,
                ));
                return BackStep { kind: 1, seg_from: st, seg_to: m, rest };
            }
        } else if m > 0 && p[0] == '/' {
            return BackStep { kind: 4, seg_from: 0, seg_to: 0, rest: 0 };
        } else if m > 0 && p[0] == '.' && (m == 1 || p[1] == '/') {
            return BackStep { kind: 3, seg_from: 0, seg_to: 0, rest: m - 1 };
        } else {
            return BackStep { kind: 0, seg_from: 0, seg_to: 0, rest: 0 };
        }
    }
}

/// Length of the first `n` characters of `p` once trailing separators and
/// `.` components are removed.
fn trim_right_len(p: &Vec<char>, n: usize) -> (k: usize)
    requires
        n <= p.len(),
    ensures
        k <= n,
        trim_right(p@.take(n as int)) == p@.take(k as int),
{
    let mut m = n;
    loop
        invariant
            m <= n <= p.len(),
            trim_right(p@.take(m as int)) == trim_right(p@.take(n as int)),
        decreases m,
    {
        let ghost q = p@.take(m as int);
        let bb = before_body_exec(p, m);
        if m > bb {
            let st = seg_start_exec(p, m, bb);
            proof {
                lemma_seg_start(q, bb as nat);
            }
            let rest = if st > bb {
                st - 1
            } else {
                st
            };
            assert(q.skip(st as int) =~= p@.subrange(st as int, m as int));
            assert(q.take(rest as int) =~= p@.take(rest as int));
            if is_skipped_exec(p, st, m) {
                m = rest;
            } else {
                return m;
            }
        } else {
            return m;
        }
    }
}

/// `Path::file_name`.
pub fn file_name_chars(p: &Vec<char>) -> (r: Option<Vec<char>>)
    ensures
        match r {
            Some(v) => file_name(p@) == Some(v@),
            None => file_name(p@) is None,
        },
{
    let s = next_back_at(p, p.len());
    assert(p@.take(p.len() as int) =~= p@);
    if s.kind == 1 {
        Some(slice_chars(p, s.seg_from, s.seg_to))
    } else {
        None
    }
}

/// `Path::parent`.
pub fn parent_chars(p: &Vec<char>) -> (r: Option<Vec<char>>)
    ensures
        match r {
            Some(v) => parent(p@) == Some(v@),
            None => parent(p@) is None,
        },
{
    let s = next_back_at(p, p.len());
    assert(p@.take(p.len() as int) =~= p@);
    proof {
        lemma_next_back_rest(p@);
    }
    if s.kind == 1 || s.kind == 2 {
        let k = trim_right_len(p, s.rest);
        Some(slice_chars(p, 0, k))
    } else if s.kind == 3 {
        assert(p@.subrange(0, s.rest as int) =~= p@.take(s.rest as int));
        Some(slice_chars(p, 0, s.rest))
    } else {
        None
    }
}

/// `Path::join` on Unix.
pub fn join_chars(base: &Vec<char>, q: &Vec<char>) -> (r: Vec<char>)
    ensures
        r@ == join_path(base@, q@),
{
    if q.len() > 0 && q[0] == '/' {
        return slice_chars(q, 0, q.len());
    }
    let mut r = slice_chars(base, 0, base.len());
    assert(base@.subrange(0, base@.len() as int) =~= base@);
    if base.len() > 0 && base[base.len() - 1] != '/' {
        r.push('/');
    }
    let ghost r0 = r@;
    let mut i: usize = 0;
    while i < q.len()
        invariant
            i <= q.len(),
            r@ == r0 + q@.take(i as int),
        decreases q.len() - i,
    {
        r.push(q[i]);
        i = i + 1;
        assert(r@ =~= r0 + q@.take(i as int));
    }
    assert(q@.take(q@.len() as int) =~= q@);
    r
}

fn last_dot_exec(f: &Vec<char>) -> (d: Option<usize>)
    ensures
        match d {
            Some(i) => last_dot(f@) == i as int,
            None => last_dot(f@) == -1,
        },
{
    let mut j = f.len();
    assert(f@.take(f.len() as int) =~= f@);
    while j > 0 && f[j - 1] != '.'
        invariant
            j <= f.len(),
            last_dot(f@) == last_dot(f@.take(j as int)),
        decreases j,
    {
        assert(f@.take(j as int).drop_last() =~= f@.take(j - 1));
        j = j - 1;
    }
    if j == 0 {
        None
    } else {
        Some(j - 1)
    }
}

/// The stem of a file name.
pub fn stem_chars(f: &Vec<char>) -> (r: Vec<char>)
    ensures
        r@ == stem_of(f@),
{
    proof {
        lemma_last_dot(f@);
    }
    match last_dot_exec(f) {
        Some(d) => {
            if d == 0 {
                slice_chars(f, 0, f.len())
            } else {
                slice_chars(f, 0, d)
            }
        },
        None => slice_chars(f, 0, f.len()),
    }
}

/// The extension of a file name.
pub fn extension_chars(f: &Vec<char>) -> (r: Option<Vec<char>>)
    ensures
        match r {
            Some(v) => extension_of(f@) == Some(v@),
            None => extension_of(f@) is None,
        },
{
    proof {
        lemma_last_dot(f@);
    }
    match last_dot_exec(f) {
        Some(d) => {
            assert(d < f.len());
            if d == 0 {
                None
            } else {
                Some(slice_chars(f, d + 1, f.len()))
            }
        },
        None => None,
    }
}

pub open spec fn strings_view(v: Seq<String>) -> Seq<Seq<char>> {
    v.map_values(|s: String| s@)
}

fn comp_text_exec(p: &Vec<char>, st: &BackStep) -> (r: Vec<char>)
    requires
        st.kind >= 1,
        st.kind == 1 ==> st.seg_from <= st.seg_to <= p.len(),
    ensures
        st.kind == 1 ==> r@ == p@.subrange(st.seg_from as int, st.seg_to as int),
        st.kind == 2 ==> r@ == seq!['.', '.'],
        st.kind == 3 ==> r@ == seq!['.'],
        st.kind == 4 ==> r@ == seq!['/'],
{
    if st.kind == 1 {
        slice_chars(p, st.seg_from, st.seg_to)
    } else if st.kind == 2 {
        vec!['.', '.']
    } else if st.kind == 3 {
        vec!['.']
    } else {
        vec!['/']
    }
}

/// The texts of the components of `p` (`Path::components`, each shown with
/// `as_os_str`).
pub fn path_components(p: &str) -> (r: Vec<String>)
    ensures
        strings_view(r@) == components(p@),
{
    let v = chars_of(p);
    let mut out: Vec<String> = Vec::new();
    let mut n = v.len();
    assert(v@.take(n as int) =~= v@);
    loop
        invariant
            n <= v.len(),
            v@ == p@,
            components(p@) == components(v@.take(n as int)) + strings_view(out@),
        decreases n,
    {
        let ghost q = v@.take(n as int);
        let st = next_back_at(&v, n);
        proof {
            lemma_next_back_rest(q);
        }
        if st.kind == 0 {
            assert(strings_view(out@) =~= Seq::<Seq<char>>::empty() + strings_view(out@));
            return out;
        }
        let t = comp_text_exec(&v, &st);
        let ghost old_out = strings_view(out@);
        out.insert(0, string_of(&t));
        assert(strings_view(out@) =~= seq![t@] + old_out);
        assert(q.take(st.rest as int) =~= v@.take(st.rest as int));
        if st.kind == 1 {
            assert(q.subrange(st.seg_from as int, st.seg_to as int) =~= v@.subrange(
                st.seg_from as int,
                st.seg_to as int,
            ));
        }
        n = st.rest;
    }
}

/// `Path::new(p).file_name()` as a string.
pub fn path_file_name(p: &str) -> (r: Option<String>)
    ensures
        opt_view(r) == file_name(p@),
{
    let v = chars_of(p);
    match file_name_chars(&v) {
        Some(f) => Some(string_of(&f)),
        None => None,
    }
}

/// `Path::new(p).parent()` as a string.
pub fn path_parent(p: &str) -> (r: Option<String>)
    ensures
        opt_view(r) == parent(p@),
{
    let v = chars_of(p);
    match parent_chars(&v) {
        Some(f) => Some(string_of(&f)),
        None => None,
    }
}

/// `Path::new(base).join(q)` as a string.
pub fn path_join(base: &str, q: &str) -> (r: String)
    ensures
        r@ == join_path(base@, q@),
{
    let b = chars_of(base);
    let v = chars_of(q);
    string_of(&join_chars(&b, &v))
}

/// `Path::new(p).file_stem()` as a string.
pub fn path_file_stem(p: &str) -> (r: Option<String>)
    ensures
        opt_view(r) == file_stem(p@),
{
    let v = chars_of(p);
    match file_name_chars(&v) {
        Some(f) => Some(string_of(&stem_chars(&f))),
        None => None,
    }
}

/// `Path::new(p).extension()` as a string.
pub fn path_extension(p: &str) -> (r: Option<String>)
    ensures
        opt_view(r) == extension(p@),
{
    let v = chars_of(p);
    match file_name_chars(&v) {
        Some(f) => match extension_chars(&f) {
            Some(e) => Some(string_of(&e)),
            None => None,
        },
        None => None,
    }
}

/// `std::path::Path::exists`: whether the file system holds something at
/// `p` at the time of the call. Nothing is stated of the answer.
#[verifier::external_body]
pub(crate) fn path_exists(p: &str) -> bool {
    std::path::Path::new(p).exists()
}

/// `std::path::Path::is_file`: whether `p` names a regular file at the time
/// of the call. Nothing is stated of the answer.
#[verifier::external_body]
pub(crate) fn path_is_file(p: &str) -> bool {
    std::path::Path::new(p).is_file()
}

/// `Path::new(p).is_absolute()` on Unix.
pub fn path_is_absolute(p: &str) -> (b: bool)
    ensures
        b == is_absolute(p@),
{
    let v = chars_of(p);
    v.len() > 0 && v[0] == '/'
}

/// Whether the file name of `p` is exactly `name`.
pub fn file_name_is(p: &str, name: &str) -> (b: bool)
    ensures
        b == (file_name(p@) == Some(name@)),
{
    let v = chars_of(p);
    match file_name_chars(&v) {
        Some(f) => {
            let n = chars_of(name);
            crate::text::chars_eq(&f, &n)
        },
        None => false,
    }
}

/// Whether the extension of `p` is exactly `ext`.
pub fn extension_is(p: &str, ext: &str) -> (b: bool)
    ensures
        b == (extension(p@) == Some(ext@)),
{
    match path_extension(p) {
        Some(e) => {
            let ev = chars_of(e.as_str());
            eq_lit(&ev, ext)
        },
        None => false,
    }
}

} // verus!
