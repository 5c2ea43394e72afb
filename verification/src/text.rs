//! Character-sequence utilities: whitespace trimming, line splitting,
//! whitespace-collapsing, prefix tests, substring replacement and decimal
//! rendering, each with the mathematical definition it meets.
use vstd::prelude::*;

verus! {

// ---------------------------------------------------------------------------
// Definitions
// ---------------------------------------------------------------------------

/// Unicode `White_Space`, the property that `char::is_whitespace` tests.
pub open spec fn is_ws(c: char) -> bool {
    let u = c as u32;
    (9 <= u && u <= 13) || u == 32 || u == 0x85 || u == 0xa0 || u == 0x1680 || (0x2000 <= u
        && u <= 0x200a) || u == 0x2028 || u == 0x2029 || u == 0x202f || u == 0x205f || u == 0x3000
}

/// `s` without its leading whitespace.
pub open spec fn trim_start(s: Seq<char>) -> Seq<char>
    decreases s.len(),
{
    if s.len() > 0 && is_ws(s[0]) {
        trim_start(s.drop_first())
    } else {
        s
    }
}

/// `s` without its trailing whitespace.
pub open spec fn trim_end(s: Seq<char>) -> Seq<char>
    decreases s.len(),
{
    if s.len() > 0 && is_ws(s.last()) {
        trim_end(s.drop_last())
    } else {
        s
    }
}

/// `s` without leading or trailing whitespace.
pub open spec fn trim(s: Seq<char>) -> Seq<char> {
    trim_end(trim_start(s))
}

pub open spec fn starts_with(s: Seq<char>, p: Seq<char>) -> bool {
    p.len() <= s.len() && s.subrange(0, p.len() as int) == p
}

pub open spec fn ends_with(s: Seq<char>, p: Seq<char>) -> bool {
    p.len() <= s.len() && s.subrange(s.len() - p.len(), s.len() as int) == p
}

/// `p` occurs in `s` at position `i`.
pub open spec fn occurs_at(s: Seq<char>, p: Seq<char>, i: int) -> bool {
    0 <= i && i + p.len() <= s.len() && s.subrange(i, i + p.len()) == p
}

pub open spec fn contains(s: Seq<char>, p: Seq<char>) -> bool {
    exists|i: int| occurs_at(s, p, i)
}

pub open spec fn contains_char(s: Seq<char>, c: char) -> bool {
    exists|i: int| 0 <= i < s.len() && s[i] == c
}

/// Number of characters before the first line feed (or the length).
pub open spec fn line_end(s: Seq<char>) -> nat
    decreases s.len(),
{
    if s.len() == 0 || s[0] == '\n' {
        0
    } else {
        1 + line_end(s.drop_first())
    }
}

/// A line ended by a line feed loses a carriage return before it.
pub open spec fn strip_cr(l: Seq<char>) -> Seq<char> {
    if l.len() > 0 && l.last() == '\r' {
        l.drop_last()
    } else {
        l
    }
}

/// The lines of `s` as `str::lines` yields them: split after each `\n`,
/// the `\n` (and a `\r` right before it) removed, no empty last line.
pub open spec fn lines(s: Seq<char>) -> Seq<Seq<char>>
    decreases s.len(),
{
    if s.len() == 0 {
        seq![]
    } else {
        let e = line_end(s);
        if e < s.len() {
            seq![strip_cr(s.take(e as int))] + lines(s.skip(e + 1int))
        } else {
            seq![s]
        }
    }
}

/// The maximal runs of non-whitespace characters of `s`, in order
/// (what `str::split_whitespace` yields).
pub open spec fn words(s: Seq<char>) -> Seq<Seq<char>>
    decreases s.len(),
{
    if s.len() == 0 {
        seq![]
    } else if is_ws(s.last()) {
        words(s.drop_last())
    } else if s.len() == 1 || is_ws(s[s.len() - 2]) {
        words(s.drop_last()).push(seq![s.last()])
    } else {
        let w = words(s.drop_last());
        w.update(w.len() - 1, w.last().push(s.last()))
    }
}

/// The pieces of `ws` with `sep` between neighbours.
pub open spec fn join(ws: Seq<Seq<char>>, sep: Seq<char>) -> Seq<char>
    decreases ws.len(),
{
    if ws.len() == 0 {
        seq![]
    } else if ws.len() == 1 {
        ws[0]
    } else {
        join(ws.drop_last(), sep) + sep + ws.last()
    }
}

/// A line with its words separated by single spaces.
pub open spec fn compact(s: Seq<char>) -> Seq<char> {
    join(words(trim(s)), seq![' '])
}

/// Every occurrence of `p` in `s`, taken from the left without overlap,
/// replaced by `r` (what `str::replace` computes; an empty `p` matches
/// before every character and at the end).
pub open spec fn replace_all(s: Seq<char>, p: Seq<char>, r: Seq<char>) -> Seq<char>
    decreases s.len(),
{
    if starts_with(s, p) && p.len() > 0 {
        r + replace_all(s.skip(p.len() as int), p, r)
    } else if s.len() == 0 {
        if p.len() == 0 {
            r
        } else {
            s
        }
    } else if p.len() == 0 {
        r + seq![s[0]] + replace_all(s.drop_first(), p, r)
    } else {
        seq![s[0]] + replace_all(s.drop_first(), p, r)
    }
}

pub open spec fn digit_char(d: nat) -> char {
    if d == 0 {
        '0'
    } else if d == 1 {
        '1'
    } else if d == 2 {
        '2'
    } else if d == 3 {
        '3'
    } else if d == 4 {
        '4'
    } else if d == 5 {
        '5'
    } else if d == 6 {
        '6'
    } else if d == 7 {
        '7'
    } else if d == 8 {
        '8'
    } else {
        '9'
    }
}

/// The decimal digits of `n`, most significant first, without leading zeros.
pub open spec fn decimal(n: nat) -> Seq<char>
    decreases n,
{
    if n < 10 {
        seq![digit_char(n)]
    } else {
        decimal(n / 10).push(digit_char(n % 10))
    }
}

// ---------------------------------------------------------------------------
// Lemmas
// ---------------------------------------------------------------------------

proof fn lemma_line_end(t: Seq<char>, m: int)
    requires
        0 <= m <= t.len(),
        forall|k: int| 0 <= k < m ==> t[k] != '\n',
        m == t.len() || t[m] == '\n',
    ensures
        line_end(t) == m,
    decreases m,
{
    if m > 0 {
        lemma_line_end(t.drop_first(), m - 1);
    }
}

pub proof fn lemma_words_nonempty(s: Seq<char>)
    requires
        s.len() > 0,
        !is_ws(s.last()),
    ensures
        words(s).len() > 0,
    decreases s.len(),
{
    if s.len() > 1 && !is_ws(s[s.len() - 2]) {
        assert(s.drop_last().last() == s[s.len() - 2]);
        lemma_words_nonempty(s.drop_last());
    }
}

proof fn lemma_join_push(w: Seq<Seq<char>>, sep: Seq<char>, x: Seq<char>)
    ensures
        join(w.push(x), sep) == if w.len() == 0 {
            x
        } else {
            join(w, sep) + sep + x
        },
{
    if w.len() > 0 {
        assert(w.push(x).drop_last() =~= w);
    }
}

proof fn lemma_join_extend_last(w: Seq<Seq<char>>, sep: Seq<char>, c: char)
    requires
        w.len() > 0,
    ensures
        join(w.update(w.len() - 1, w.last().push(c)), sep) == join(w, sep).push(c),
{
    let w2 = w.update(w.len() - 1, w.last().push(c));
    if w.len() > 1 {
        assert(w2.drop_last() =~= w.drop_last());
        assert(join(w2, sep) =~= join(w, sep).push(c));
    }
}

proof fn lemma_decimal_len(n: nat)
    ensures
        1 <= decimal(n).len(),
    decreases n,
{
    if n >= 10 {
        lemma_decimal_len(n / 10);
    }
}

// ---------------------------------------------------------------------------
// Executable functions
// ---------------------------------------------------------------------------

/// The characters of `s`, in order.
pub fn chars_of(s: &str) -> (v: Vec<char>)
    ensures
        v@ == s@,
{
    let mut v: Vec<char> = Vec::new();
    for c in it: s.chars()
        invariant
            v@ == it.seq().take(it.index() as int),
            it.seq() == s@,
    {
        v.push(c);
    }
    v
}

/// `std::iter::FromIterator<char>` for `String`: the string made of the
/// given characters in order.
#[verifier::external_body]
pub(crate) fn string_of(v: &Vec<char>) -> (s: String)
    ensures
        s@ == v@,
{
    v.iter().collect()
}

/// `s` as a `String`.
pub fn string_from(s: &str) -> (r: String)
    ensures
        r@ == s@,
{
    String::from_str(s)
}

/// `a` followed by `b`.
pub fn concat2(a: &str, b: &str) -> (r: String)
    ensures
        r@ == a@ + b@,
{
    let mut r = String::from_str(a);
    r.append(b);
    r
}

/// `a`, `b` and `c` in order.
pub fn concat3(a: &str, b: &str, c: &str) -> (r: String)
    ensures
        r@ == a@ + b@ + c@,
{
    let mut r = String::from_str(a);
    r.append(b);
    r.append(c);
    r
}

/// `char::is_whitespace`.
pub fn is_whitespace(c: char) -> (b: bool)
    ensures
        b == is_ws(c),
{
    let u = c as u32;
    (9 <= u && u <= 13) || u == 32 || u == 0x85 || u == 0xa0 || u == 0x1680 || (0x2000 <= u && u
        <= 0x200a) || u == 0x2028 || u == 0x2029 || u == 0x202f || u == 0x205f || u == 0x3000
}

/// The characters of `v` from `from` up to (not including) `to`.
pub fn slice_chars(v: &Vec<char>, from: usize, to: usize) -> (r: Vec<char>)
    requires
        from <= to <= v.len(),
    ensures
        r@ == v@.subrange(from as int, to as int),
{
    let mut r: Vec<char> = Vec::new();
    let mut i = from;
    while i < to
        invariant
            from <= i <= to <= v.len(),
            r@ == v@.subrange(from as int, i as int),
        decreases to - i,
    {
        r.push(v[i]);
        i = i + 1;
        assert(r@ =~= v@.subrange(from as int, i as int));
    }
    r
}

/// Number of leading whitespace characters of `s`.
pub fn leading_ws(s: &Vec<char>) -> (i: usize)
    ensures
        i <= s.len(),
        trim_start(s@) == s@.skip(i as int),
{
    let mut i: usize = 0;
    assert(s@.skip(0) =~= s@);
    while i < s.len() && is_whitespace(s[i])
        invariant
            i <= s.len(),
            trim_start(s@) == trim_start(s@.skip(i as int)),
        decreases s.len() - i,
    {
        assert(s@.skip(i as int).drop_first() =~= s@.skip(i + 1));
        i = i + 1;
    }
    i
}

/// Length of `s` once its trailing whitespace is removed.
pub fn trailing_trimmed_len(s: &Vec<char>) -> (j: usize)
    ensures
        j <= s.len(),
        trim_end(s@) == s@.take(j as int),
{
    let mut j: usize = s.len();
    assert(s@.take(s.len() as int) =~= s@);
    while j > 0 && is_whitespace(s[j - 1])
        invariant
            j <= s.len(),
            trim_end(s@) == trim_end(s@.take(j as int)),
        decreases j,
    {
        assert(s@.take(j as int).drop_last() =~= s@.take(j - 1));
        j = j - 1;
    }
    j
}

pub fn trim_start_chars(s: &Vec<char>) -> (r: Vec<char>)
    ensures
        r@ == trim_start(s@),
{
    let i = leading_ws(s);
    slice_chars(s, i, s.len())
}

pub fn trim_end_chars(s: &Vec<char>) -> (r: Vec<char>)
    ensures
        r@ == trim_end(s@),
{
    let j = trailing_trimmed_len(s);
    slice_chars(s, 0, j)
}

pub fn trim_chars(s: &Vec<char>) -> (r: Vec<char>)
    ensures
        r@ == trim(s@),
{
    let t = trim_start_chars(s);
    trim_end_chars(&t)
}

/// `s` with its leading and trailing whitespace removed (`str::trim`).
pub fn trim_str(s: &str) -> (r: String)
    ensures
        r@ == trim(s@),
{
    let v = chars_of(s);
    string_of(&trim_chars(&v))
}

/// `s` with its trailing whitespace removed (`str::trim_end`).
pub fn trim_end_str(s: &str) -> (r: String)
    ensures
        r@ == trim_end(s@),
{
    let v = chars_of(s);
    string_of(&trim_end_chars(&v))
}

/// Whether the two sequences are equal.
pub fn chars_eq(a: &Vec<char>, b: &Vec<char>) -> (r: bool)
    ensures
        r == (a@ == b@),
{
    if a.len() != b.len() {
        return false;
    }
    let mut i: usize = 0;
    while i < a.len()
        invariant
            a.len() == b.len(),
            i <= a.len(),
            forall|k: int| 0 <= k < i ==> a@[k] == b@[k],
        decreases a.len() - i,
    {
        if a[i] != b[i] {
            return false;
        }
        i = i + 1;
    }
    assert(a@ =~= b@);
    true
}

/// Whether `s` equals the literal `lit`.
pub fn eq_lit(s: &Vec<char>, lit: &str) -> (r: bool)
    ensures
        r == (s@ == lit@),
{
    let l = chars_of(lit);
    chars_eq(s, &l)
}

/// Whether `p` occurs in `s` at position `i`.
pub fn occurs_at_exec(s: &Vec<char>, p: &Vec<char>, i: usize) -> (r: bool)
    ensures
        r == occurs_at(s@, p@, i as int),
{
    if i > s.len() || s.len() - i < p.len() {
        return false;
    }
    let mut k: usize = 0;
    while k < p.len()
        invariant
            i + p.len() <= s.len(),
            k <= p.len(),
            forall|m: int| 0 <= m < k ==> s@[i + m] == p@[m],
        decreases p.len() - k,
    {
        if s[i + k] != p[k] {
            assert(s@.subrange(i as int, i + p.len())[k as int] != p@[k as int]);
            return false;
        }
        k = k + 1;
    }
    assert(s@.subrange(i as int, i + p.len()) =~= p@);
    true
}

/// Whether `s` begins with `p`.
pub fn starts_with_chars(s: &Vec<char>, p: &Vec<char>) -> (r: bool)
    ensures
        r == starts_with(s@, p@),
{
    let r = occurs_at_exec(s, p, 0);
    assert(r == starts_with(s@, p@)) by {
        if r {
            assert(s@.subrange(0, p@.len() as int) == p@);
        }
        if starts_with(s@, p@) {
            assert(occurs_at(s@, p@, 0));
        }
    }
    r
}

/// Whether `s` begins with the literal `lit`.
pub fn starts_with_lit(s: &Vec<char>, lit: &str) -> (r: bool)
    ensures
        r == starts_with(s@, lit@),
{
    let l = chars_of(lit);
    starts_with_chars(s, &l)
}

/// Whether `s` ends with `p`.
pub fn ends_with_chars(s: &Vec<char>, p: &Vec<char>) -> (r: bool)
    ensures
        r == ends_with(s@, p@),
{
    if p.len() > s.len() {
        return false;
    }
    let r = occurs_at_exec(s, p, s.len() - p.len());
    r
}

/// Whether `p` occurs anywhere in `s`.
pub fn contains_chars(s: &Vec<char>, p: &Vec<char>) -> (r: bool)
    ensures
        r == contains(s@, p@),
{
    if p.len() > s.len() {
        assert forall|i: int| !occurs_at(s@, p@, i) by {}
        return false;
    }
    let mut i: usize = 0;
    loop
        invariant
            p.len() <= s.len(),
            i <= s.len() - p.len(),
            forall|k: int| 0 <= k < i ==> !occurs_at(s@, p@, k),
        ensures
            forall|k: int| 0 <= k <= s.len() - p.len() ==> !occurs_at(s@, p@, k),
        decreases s.len() - p.len() - i,
    {
        if occurs_at_exec(s, p, i) {
            return true;
        }
        if i == s.len() - p.len() {
            break;
        }
        i = i + 1;
    }
    assert forall|k: int| !occurs_at(s@, p@, k) by {
        if k > s.len() - p.len() {
        }
    }
    false
}

/// Whether `c` occurs in `s`.
pub fn contains_char_exec(s: &Vec<char>, c: char) -> (r: bool)
    ensures
        r == contains_char(s@, c),
{
    let mut i: usize = 0;
    while i < s.len()
        invariant
            i <= s.len(),
            forall|k: int| 0 <= k < i ==> s@[k] != c,
        decreases s.len() - i,
    {
        if s[i] == c {
            return true;
        }
        i = i + 1;
    }
    false
}

/// The character sequences held by a vector of character vectors.
pub open spec fn seqs_view(v: Seq<Vec<char>>) -> Seq<Seq<char>> {
    v.map_values(|l: Vec<char>| l@)
}

/// The lines of `s` (`str::lines`).
pub fn lines_of(s: &Vec<char>) -> (r: Vec<Vec<char>>)
    ensures
        seqs_view(r@) == lines(s@),
{
    let mut out: Vec<Vec<char>> = Vec::new();
    let mut start: usize = 0;
    let mut j: usize = 0;
    assert(s@.skip(0) =~= s@);
    while j < s.len()
        invariant
            start <= j <= s.len(),
            seqs_view(out@) + lines(s@.skip(start as int)) == lines(s@),
            forall|k: int| start <= k < j ==> s@[k] != '\n',
        decreases s.len() - j,
    {
        if s[j] == '\n' {
            let ghost t = s@.skip(start as int);
            proof {
                lemma_line_end(t, j - start);
                assert(t.take(j - start) =~= s@.subrange(start as int, j as int));
                assert(t.skip(j - start + 1) =~= s@.skip(j + 1));
            }
            let mut line = slice_chars(s, start, j);
            if line.len() > 0 && line[line.len() - 1] == '\r' {
                line.pop();
            }
            assert(line@ == strip_cr(s@.subrange(start as int, j as int))) by {
                if s@.subrange(start as int, j as int).len() > 0 && s@.subrange(
                    start as int,
                    j as int,
                ).last() == '\r' {
                    assert(line@ =~= s@.subrange(start as int, j as int).drop_last());
                }
            }
            let ghost old_out = seqs_view(out@);
            out.push(line);
            assert(seqs_view(out@) =~= old_out.push(strip_cr(s@.subrange(start as int, j as int))));
            assert(seqs_view(out@) + lines(s@.skip(j + 1)) =~= old_out + lines(t));
            start = j + 1;
        }
        j = j + 1;
    }
    if start < s.len() {
        let ghost t = s@.skip(start as int);
        proof {
            lemma_line_end(t, t.len() as int);
        }
        let line = slice_chars(s, start, s.len());
        assert(line@ =~= t);
        let ghost old_out = seqs_view(out@);
        out.push(line);
        assert(seqs_view(out@) =~= old_out + lines(t));
    } else {
        assert(seqs_view(out@) =~= seqs_view(out@) + lines(s@.skip(start as int)));
    }
    out
}

/// `s` with its words separated by single spaces: what
/// `line.trim().split_whitespace().collect::<Vec<_>>().join(" ")` gives.
pub fn compact_chars(s: &Vec<char>) -> (r: Vec<char>)
    ensures
        r@ == compact(s@),
{
    let t = trim_chars(s);
    let mut out: Vec<char> = Vec::new();
    let mut i: usize = 0;
    assert(t@.take(0) =~= Seq::<char>::empty());
    while i < t.len()
        invariant
            i <= t.len(),
            out@ == join(words(t@.take(i as int)), seq![' ']),
            (out@.len() == 0) == (words(t@.take(i as int)).len() == 0),
        decreases t.len() - i,
    {
        let c = t[i];
        let ghost p = t@.take(i as int);
        let ghost q = t@.take(i + 1);
        assert(q.drop_last() =~= p);
        assert(q.last() == c);
        if is_whitespace(c) {
        } else if i == 0 || is_whitespace(t[i - 1]) {
            assert(i > 0 ==> q[q.len() - 2] == t@[i - 1]);
            proof {
                lemma_join_push(words(p), seq![' '], seq![c]);
            }
            if out.len() > 0 {
                out.push(' ');
            }
            out.push(c);
            assert(out@ =~= join(words(q), seq![' ']));
        } else {
            assert(q[q.len() - 2] == t@[i - 1]);
            assert(p.last() == t@[i - 1]);
            proof {
                lemma_words_nonempty(p);
                lemma_join_extend_last(words(p), seq![' '], c);
            }
            out.push(c);
        }
        i = i + 1;
    }
    assert(t@.take(t.len() as int) =~= t@);
    out
}

/// `s.replace(p, r)`.
pub fn replace_all_chars(s: &Vec<char>, p: &Vec<char>, r: &Vec<char>) -> (o: Vec<char>)
    ensures
        o@ == replace_all(s@, p@, r@),
{
    let mut out: Vec<char> = Vec::new();
    let mut i: usize = 0;
    assert(s@.skip(0) =~= s@);
    while i < s.len()
        invariant
            i <= s.len(),
            out@ + replace_all(s@.skip(i as int), p@, r@) == replace_all(s@, p@, r@),
        decreases s.len() - i,
    {
        let ghost t = s@.skip(i as int);
        let hit = occurs_at_exec(s, p, i);
        assert(hit == starts_with(t, p@)) by {
            if hit {
                assert(t.subrange(0, p@.len() as int) =~= s@.subrange(i as int, i + p@.len()));
            }
            if starts_with(t, p@) {
                assert(t.subrange(0, p@.len() as int) =~= s@.subrange(i as int, i + p@.len()));
            }
        }
        if hit && p.len() > 0 {
            let ghost old_out = out@;
            let mut k: usize = 0;
            while k < r.len()
                invariant
                    k <= r.len(),
                    out@ == old_out + r@.take(k as int),
                decreases r.len() - k,
            {
                out.push(r[k]);
                k = k + 1;
                assert(out@ =~= old_out + r@.take(k as int));
            }
            assert(r@.take(r@.len() as int) =~= r@);
            assert(t.skip(p@.len() as int) =~= s@.skip(i + p@.len()));
            assert(out@ + replace_all(s@.skip(i + p@.len()), p@, r@) =~= old_out + replace_all(
                t,
                p@,
                r@,
            ));
            i = i + p.len();
        } else {
            let ghost old_out = out@;
            if p.len() == 0 {
                let mut k: usize = 0;
                while k < r.len()
                    invariant
                        k <= r.len(),
                        out@ == old_out + r@.take(k as int),
                    decreases r.len() - k,
                {
                    out.push(r[k]);
                    k = k + 1;
                    assert(out@ =~= old_out + r@.take(k as int));
                }
                assert(r@.take(r@.len() as int) =~= r@);
            }
            out.push(s[i]);
            assert(t.drop_first() =~= s@.skip(i + 1));
            assert(t[0] == s@[i as int]);
            if p.len() == 0 {
                assert(out@ + replace_all(s@.skip(i + 1), p@, r@) =~= old_out + replace_all(
                    t,
                    p@,
                    r@,
                ));
            } else {
                assert(out@ + replace_all(s@.skip(i + 1), p@, r@) =~= old_out + replace_all(
                    t,
                    p@,
                    r@,
                ));
            }
            i = i + 1;
        }
    }
    let ghost e = s@.skip(i as int);
    assert(e.len() == 0);
    if p.len() == 0 {
        let ghost old_out = out@;
        let mut k: usize = 0;
        while k < r.len()
            invariant
                k <= r.len(),
                out@ == old_out + r@.take(k as int),
            decreases r.len() - k,
        {
            out.push(r[k]);
            k = k + 1;
            assert(out@ =~= old_out + r@.take(k as int));
        }
        assert(r@.take(r@.len() as int) =~= r@);
        assert(e.subrange(0, 0) =~= p@);
        assert(starts_with(e, p@));
    } else {
        assert(!starts_with(e, p@));
        assert(out@ =~= out@ + replace_all(e, p@, r@));
    }
    out
}

pub fn digit_char_exec(d: u64) -> (c: char)
    requires
        d < 10,
    ensures
        c == digit_char(d as nat),
{
    if d == 0 {
        '0'
    } else if d == 1 {
        '1'
    } else if d == 2 {
        '2'
    } else if d == 3 {
        '3'
    } else if d == 4 {
        '4'
    } else if d == 5 {
        '5'
    } else if d == 6 {
        '6'
    } else if d == 7 {
        '7'
    } else if d == 8 {
        '8'
    } else {
        '9'
    }
}

/// The decimal rendering of `n` (what `n.to_string()` gives).
pub fn decimal_chars(n: u64) -> (r: Vec<char>)
    ensures
        r@ == decimal(n as nat),
{
    let mut acc: Vec<char> = Vec::new();
    let mut cur = n;
    while cur >= 10
        invariant
            decimal(n as nat) == decimal(cur as nat) + acc@,
        decreases cur,
    {
        let d = digit_char_exec(cur % 10);
        let ghost old_acc = acc@;
        acc.insert(0, d);
        assert(decimal(cur as nat) == decimal((cur / 10) as nat).push(digit_char((cur % 10) as nat)));
        assert(decimal(cur as nat) + old_acc =~= decimal((cur / 10) as nat) + acc@);
        cur = cur / 10;
    }
    let d = digit_char_exec(cur);
    acc.insert(0, d);
    acc
}

/// The decimal rendering of `n` as a `String`.
pub fn decimal_string(n: u64) -> (r: String)
    ensures
        r@ == decimal(n as nat),
{
    string_of(&decimal_chars(n))
}

// ---------------------------------------------------------------------------
// Whitespace splitting and compacting
// ---------------------------------------------------------------------------

/// Every word is non-empty and holds no whitespace.
pub open spec fn plain_words(ws: Seq<Seq<char>>) -> bool {
    forall|i: int| 0 <= i < ws.len() ==> #[trigger] ws[i].len() > 0 && forall|j: int|
        0 <= j < ws[i].len() ==> !is_ws(ws[i][j])
}

proof fn lemma_words_plain(s: Seq<char>)
    ensures
        plain_words(words(s)),
    decreases s.len(),
{
    if s.len() > 0 {
        lemma_words_plain(s.drop_last());
        if !is_ws(s.last()) && !(s.len() == 1 || is_ws(s[s.len() - 2])) {
            assert(s.drop_last().last() == s[s.len() - 2]);
            lemma_words_nonempty(s.drop_last());
            let w = words(s.drop_last());
            let u = w.update(w.len() - 1, w.last().push(s.last()));
            assert forall|i: int| 0 <= i < u.len() implies #[trigger] u[i].len() > 0 && forall|j: int|
                0 <= j < u[i].len() ==> !is_ws(u[i][j]) by {
                if i == w.len() - 1 {
                    assert forall|j: int| 0 <= j < u[i].len() implies !is_ws(u[i][j]) by {
                        if j < w.last().len() {
                            assert(u[i][j] == w[w.len() - 1][j]);
                        }
                    }
                } else {
                    assert(u[i] == w[i]);
                }
            }
        } else if !is_ws(s.last()) {
            let w = words(s.drop_last());
            let u = w.push(seq![s.last()]);
            assert forall|i: int| 0 <= i < u.len() implies #[trigger] u[i].len() > 0 && forall|j: int|
                0 <= j < u[i].len() ==> !is_ws(u[i][j]) by {
                if i < w.len() {
                    assert(u[i] == w[i]);
                }
            }
        }
    }
}

/// Leading whitespace does not change the words.
proof fn lemma_words_drop_ws_first(s: Seq<char>)
    requires
        s.len() > 0,
        is_ws(s[0]),
    ensures
        words(s) == words(s.drop_first()),
    decreases s.len(),
{
    let t = s.drop_first();
    if s.len() == 1 {
        assert(s.drop_last() =~= Seq::<char>::empty());
        assert(t =~= Seq::<char>::empty());
    } else {
        assert(t.drop_last() =~= s.drop_last().drop_first());
        assert(t.last() == s.last());
        assert(s.drop_last()[0] == s[0]);
        lemma_words_drop_ws_first(s.drop_last());
        if t.len() >= 2 {
            assert(t[t.len() - 2] == s[s.len() - 2]);
        }
    }
}

proof fn lemma_words_trim_start(s: Seq<char>)
    ensures
        words(trim_start(s)) == words(s),
    decreases s.len(),
{
    if s.len() > 0 && is_ws(s[0]) {
        lemma_words_drop_ws_first(s);
        lemma_words_trim_start(s.drop_first());
    }
}

proof fn lemma_words_trim_end(s: Seq<char>)
    ensures
        words(trim_end(s)) == words(s),
    decreases s.len(),
{
    if s.len() > 0 && is_ws(s.last()) {
        lemma_words_trim_end(s.drop_last());
    }
}

/// A plain word after nothing or after whitespace is a word of its own.
proof fn lemma_words_append_word(x: Seq<char>, w: Seq<char>)
    requires
        w.len() > 0,
        forall|j: int| 0 <= j < w.len() ==> !is_ws(w[j]),
        x.len() == 0 || is_ws(x.last()),
    ensures
        words(x + w) == words(x).push(w),
    decreases w.len(),
{
    let s = x + w;
    assert(s.last() == w.last());
    if w.len() == 1 {
        assert(s.drop_last() =~= x);
        if x.len() > 0 {
            assert(s[s.len() - 2] == x.last());
        }
        assert(seq![w.last()] =~= w);
    } else {
        assert(s.drop_last() =~= x + w.drop_last());
        assert(s[s.len() - 2] == w[w.len() - 2]);
        lemma_words_append_word(x, w.drop_last());
        assert(w.drop_last().push(w.last()) =~= w);
        assert(words(x).push(w.drop_last()).update(words(x).len() as int, w) =~= words(x).push(w));
    }
}

proof fn lemma_words_of_join(ws: Seq<Seq<char>>)
    requires
        plain_words(ws),
    ensures
        words(join(ws, seq![' '])) == ws,
    decreases ws.len(),
{
    if ws.len() == 1 {
        assert(ws[0].len() > 0);
        lemma_words_append_word(Seq::<char>::empty(), ws[0]);
        assert(Seq::<char>::empty() + ws[0] =~= ws[0]);
        assert(Seq::<Seq<char>>::empty().push(ws[0]) =~= ws);
    } else if ws.len() > 1 {
        let d = ws.drop_last();
        assert forall|i: int| 0 <= i < d.len() implies #[trigger] d[i].len() > 0 && forall|j: int|
            0 <= j < d[i].len() ==> !is_ws(d[i][j]) by {
            assert(d[i] == ws[i]);
        }
        lemma_words_of_join(d);
        let x = join(d, seq![' ']) + seq![' '];
        assert(is_ws(' '));
        assert(x.drop_last() =~= join(d, seq![' ']));
        assert(ws[ws.len() - 1].len() > 0);
        lemma_words_append_word(x, ws.last());
        assert(d.push(ws.last()) =~= ws);
    } else {
        assert(ws =~= Seq::<Seq<char>>::empty());
    }
}

/// Compacting a line is splitting it at whitespace and joining the words
/// with single spaces; the trimming changes nothing.
pub proof fn law_compact_is_whitespace_split(s: Seq<char>)
    ensures
        compact(s) == join(words(s), seq![' ']),
{
    lemma_words_trim_end(trim_start(s));
    lemma_words_trim_start(s);
}

/// Compacting a compacted line changes nothing.
pub proof fn law_compact_idempotent(s: Seq<char>)
    ensures
        compact(compact(s)) == compact(s),
{
    law_compact_is_whitespace_split(s);
    law_compact_is_whitespace_split(compact(s));
    lemma_words_plain(s);
    lemma_words_of_join(words(s));
}

} // verus!
