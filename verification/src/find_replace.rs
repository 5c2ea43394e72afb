//! Replacing a block of text in a file, with line endings normalized.
use vstd::prelude::*;

use crate::text::{chars_of, contains, contains_chars, replace_all, replace_all_chars, string_of};

verus! {

pub open spec fn normalized(s: Seq<char>) -> Seq<char> {
    replace_all(s, seq!['\r', '\n'], seq!['\n'])
}

/// `s` with each `\r\n` turned into `\n`.
pub fn normalize_newlines(s: &str) -> (r: String)
    ensures
        r@ == normalized(s@),
{
    let v = chars_of(s);
    let crlf = vec!['\r', '\n'];
    let lf = vec!['\n'];
    assert(crlf@ =~= seq!['\r', '\n']);
    assert(lf@ =~= seq!['\n']);
    string_of(&replace_all_chars(&v, &crlf, &lf))
}

/// The new text of a file: with line endings normalized everywhere, every
/// occurrence of `find` in `content` replaced by `replace`; `None` when
/// `find` does not occur.
pub open spec fn block_replaced(content: Seq<char>, find: Seq<char>, replace: Seq<char>) -> Option<Seq<char>> {
    let c = normalized(content);
    let f = normalized(find);
    if contains(c, f) {
        Some(replace_all(c, f, normalized(replace)))
    } else {
        None
    }
}

pub fn block_replace(content: &str, find: &str, replace: &str) -> (r: Option<String>)
    ensures
        match r {
            Some(s) => block_replaced(content@, find@, replace@) == Some(s@),
            None => block_replaced(content@, find@, replace@) is None,
        },
{
    let c = chars_of(normalize_newlines(content).as_str());
    let f = chars_of(normalize_newlines(find).as_str());
    let r = chars_of(normalize_newlines(replace).as_str());
    if !contains_chars(&c, &f) {
        return None;
    }
    Some(string_of(&replace_all_chars(&c, &f, &r)))
}

proof fn lemma_replace_same(s: Seq<char>, p: Seq<char>)
    ensures
        replace_all(s, p, p) == s,
    decreases s.len(),
{
    if crate::text::starts_with(s, p) && p.len() > 0 {
        lemma_replace_same(s.skip(p.len() as int), p);
        assert(s =~= s.subrange(0, p.len() as int) + s.skip(p.len() as int));
    } else if s.len() == 0 {
    } else {
        lemma_replace_same(s.drop_first(), p);
        assert(s =~= seq![s[0]] + s.drop_first());
        if p.len() == 0 {
            assert(p + seq![s[0]] + s.drop_first() =~= s);
        }
    }
}

/// Replacing a block by itself leaves the (normalized) text unchanged.
pub proof fn law_replace_by_itself(content: Seq<char>, find: Seq<char>)
    requires
        contains(normalized(content), normalized(find)),
    ensures
        block_replaced(content, find, find) == Some(normalized(content)),
{
    lemma_replace_same(normalized(content), normalized(find));
}

} // verus!
