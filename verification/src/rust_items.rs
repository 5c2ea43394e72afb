//! The top-level items of Rust source text, read with `syn`.
use vstd::prelude::*;

use crate::paths::opt_view;

verus! {

#[verifier::external_type_specification]
#[verifier::external_body]
pub struct ExSynError(syn::Error);

/// For each top-level item of the Rust file `source`, in order, the name of
/// the module it declares (`Some`) or `None` for an item of another kind;
/// `None` as a whole when `syn::parse_file` rejects `source`.
pub uninterp spec fn rust_file_items(source: Seq<char>) -> Option<Seq<Option<Seq<char>>>>;

pub open spec fn opt_strings_view(v: Seq<Option<String>>) -> Seq<Option<Seq<char>>> {
    v.map_values(|o: Option<String>| opt_view(o))
}

/// `syn::parse_file`, each top-level `syn::Item` mapped to the identifier of
/// an `Item::Mod` (by `Ident::to_string`, against which `Ident`'s `==` on
/// strings compares) or to `None`. The contract says only that the result
/// is the one `rust_file_items` names for `source`.
#[verifier::external_body]
pub(crate) fn parse_file_items(source: &str) -> (r: Result<Vec<Option<String>>, syn::Error>)
    ensures
        match r {
            Ok(v) => rust_file_items(source@) == Some(opt_strings_view(v@)),
            Err(_) => rust_file_items(source@) is None,
        },
{
    syn::parse_file(source).map(
        |file| file.items.into_iter().map(|item| match item {
            syn::Item::Mod(m) => Some(m.ident.to_string()),
            _ => None,
        }).collect())
}

/// `Display` of `syn::Error`: the message of its first error. Nothing is
/// stated of the text.
#[verifier::external_body]
pub(crate) fn syn_error_text(e: &syn::Error) -> String {
    e.to_string()
}

/// Whether the top-level items hold a module declaration named `name`.
pub open spec fn declares_module(items: Seq<Option<Seq<char>>>, name: Seq<char>) -> bool {
    exists|i: int| 0 <= i < items.len() && items[i] == Some(name)
}

/// Whether `source` parses and, if it does, whether it declares a top-level
/// module named `name`; `Err` holds the parser's message.
pub fn module_is_declared(source: &str, name: &str) -> (r: Result<bool, String>)
    ensures
        match rust_file_items(source@) {
            None => r is Err,
            Some(items) => r == Ok::<bool, String>(declares_module(items, name@)),
        },
{
    match parse_file_items(source) {
        Err(e) => Err(syn_error_text(&e)),
        Ok(items) => {
            let ghost iv = opt_strings_view(items@);
            let mut i: usize = 0;
            while i < items.len()
                invariant
                    i <= items.len(),
                    iv == opt_strings_view(items@),
                    rust_file_items(source@) == Some(iv),
                    forall|k: int| 0 <= k < i ==> iv[k] != Some(name@),
                decreases items.len() - i,
            {
                let hit = match &items[i] {
                    Some(s) => {
                        let a = crate::text::chars_of(s.as_str());
                        let b = crate::text::chars_of(name);
                        let h = crate::text::chars_eq(&a, &b);
                        assert(items@[i as int] == Some(*s));
                        assert(h ==> iv[i as int] == Some(name@));
                        h
                    },
                    None => false,
                };
                assert(iv[i as int] == opt_view(items@[i as int]));
                if hit {
                    return Ok(true);
                }
                i = i + 1;
            }
            Ok(false)
        },
    }
}

/// A file declares a module when any of its top-level `mod` items has that
/// name, wherever it stands among the items; and only then. Items added
/// after it do not undo the declaration.
pub proof fn law_declared_at_any_position(items: Seq<Option<Seq<char>>>, name: Seq<char>, i: int, more: Seq<Option<Seq<char>>>)
    requires
        0 <= i < items.len(),
        items[i] == Some(name),
    ensures
        declares_module(items, name),
        declares_module(items + more, name),
        declares_module(more + items, name),
{
    assert((items + more)[i] == Some(name));
    assert((more + items)[more.len() + i] == Some(name));
}

/// A file whose items hold no `mod` item of that name does not declare it.
pub proof fn law_undeclared_means_absent(items: Seq<Option<Seq<char>>>, name: Seq<char>)
    requires
        forall|k: int| 0 <= k < items.len() ==> items[k] != Some(name),
    ensures
        !declares_module(items, name),
{
}

} // verus!
