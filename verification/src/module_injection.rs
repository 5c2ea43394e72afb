//! Declaring a newly created Rust file in the `mod.rs` beside it, one
//! decision at a time: what the caller must look at, then what it must
//! write and report.
use vstd::prelude::*;

use crate::paths::{file_stem, join_path, parent, path_file_stem, path_join, path_parent};
use crate::register_module::{appended_text, append_declaration, is_crate_root_stem};
use crate::rust_items::{declares_module, module_is_declared, rust_file_items};
use crate::text::{chars_of, eq_lit, string_from};

verus! {

/// Why a new file could not be declared.
#[derive(Clone, Debug, PartialEq, Eq)]
pub enum InjectError {
    /// The path has no file name.
    InvalidFileName,
    /// The path has no parent folder.
    NoParentDirectory,
    /// Reading or writing `mod.rs` failed; the system's message.
    Io(String),
    /// `mod.rs` is no valid Rust; the parser's message.
    Parse(String),
}

impl InjectError {
    pub open spec fn message_text(&self) -> Seq<char> {
        match self {
            InjectError::InvalidFileName => "Invalid file nomenclature"@,
            InjectError::NoParentDirectory => "File possesses no parent directory"@,
            InjectError::Io(m) => m@,
            InjectError::Parse(m) => m@,
        }
    }

    pub fn message(&self) -> (r: String)
        ensures
            r@ == self.message_text(),
    {
        match self {
            InjectError::InvalidFileName => string_from("Invalid file nomenclature"),
            InjectError::NoParentDirectory => string_from("File possesses no parent directory"),
            InjectError::Io(m) => m.clone(),
            InjectError::Parse(m) => m.clone(),
        }
    }
}

/// Where a new file's declaration belongs.
#[derive(Clone, Debug, PartialEq, Eq)]
pub enum InjectTarget {
    /// The file is a root file (`mod.rs`, `main.rs`, `lib.rs`); report this.
    Skip(String),
    /// Declare module `stem` in the file `mod_rs`.
    ModRs { mod_rs: String, stem: String },
}

pub open spec fn skip_message(stem: Seq<char>) -> Seq<char> {
    "[SKIP] Bypassing root structural file: "@ + stem + ".rs"@
}

/// Where the declaration of the new file at `new_file_path` belongs.
pub fn inject_target(new_file_path: &str) -> (r: Result<InjectTarget, InjectError>)
    ensures
        match file_stem(new_file_path@) {
            None => r == Err::<InjectTarget, InjectError>(InjectError::InvalidFileName),
            Some(stem) => if is_crate_root_stem(stem) {
                r matches Ok(InjectTarget::Skip(m)) && m@ == skip_message(stem)
            } else {
                match parent(new_file_path@) {
                    None => r == Err::<InjectTarget, InjectError>(InjectError::NoParentDirectory),
                    Some(dir) => r matches Ok(InjectTarget::ModRs { mod_rs, stem: s }) && mod_rs@
                        == join_path(dir, "mod.rs"@) && s@ == stem,
                }
            },
        },
{
    let stem = match path_file_stem(new_file_path) {
        Some(s) => s,
        None => {
            return Err(InjectError::InvalidFileName);
        },
    };
    let sv = chars_of(stem.as_str());
    if eq_lit(&sv, "mod") || eq_lit(&sv, "main") || eq_lit(&sv, "lib") {
        let mut m = string_from("[SKIP] Bypassing root structural file: ");
        m.append(stem.as_str());
        m.append(".rs");
        return Ok(InjectTarget::Skip(m));
    }
    let dir = match path_parent(new_file_path) {
        Some(d) => d,
        None => {
            return Err(InjectError::NoParentDirectory);
        },
    };
    let mod_rs = path_join(dir.as_str(), "mod.rs");
    Ok(InjectTarget::ModRs { mod_rs, stem })
}

/// What to do with `mod.rs`: write new contents and report, or only report.
#[derive(Clone, Debug, PartialEq, Eq)]
pub enum InjectAction {
    Write { contents: String, message: String },
    Report(String),
}

pub open spec fn pub_mod_line(stem: Seq<char>) -> Seq<char> {
    "pub mod "@ + stem + ";\n"@
}

/// What to do for module `stem`, given the text of the existing `mod.rs`
/// (`None` where there is none): create it with the declaration, leave it
/// when it already declares the module, else append the declaration.
pub fn plan_injection(stem: &str, existing: Option<String>) -> (r: Result<InjectAction, InjectError>)
    ensures
        match existing {
            None => r matches Ok(InjectAction::Write { contents, message }) && contents@
                == pub_mod_line(stem@) && message@ == "[ARCHIVE] Generated new mod.rs and injected: pub mod "@
                + stem@ + ";"@,
            Some(content) => match rust_file_items(content@) {
                None => r matches Err(InjectError::Parse(_)),
                Some(items) => if declares_module(items, stem@) {
                    r matches Ok(InjectAction::Report(m)) && m@ == "[VERIFIED] Module '"@ + stem@
                        + "' is already cataloged."@
                } else {
                    r matches Ok(InjectAction::Write { contents, message }) && contents@
                        == appended_text(content@, pub_mod_line(stem@)) && message@
                        == "[UPDATE] Appended 'pub mod "@ + stem@ + ";' to existing hierarchy."@
                },
            },
        },
{
    let mut line = string_from("pub mod ");
    line.append(stem);
    line.append(";\n");
    match existing {
        None => {
            let mut m = string_from("[ARCHIVE] Generated new mod.rs and injected: pub mod ");
            m.append(stem);
            m.append(";");
            Ok(InjectAction::Write { contents: line, message: m })
        },
        Some(content) => {
            let declared = match module_is_declared(content.as_str(), stem) {
                Ok(d) => d,
                Err(msg) => {
                    return Err(InjectError::Parse(msg));
                },
            };
            if declared {
                let mut m = string_from("[VERIFIED] Module '");
                m.append(stem);
                m.append("' is already cataloged.");
                Ok(InjectAction::Report(m))
            } else {
                let contents = append_declaration(content.as_str(), line.as_str());
                let mut m = string_from("[UPDATE] Appended 'pub mod ");
                m.append(stem);
                m.append(";' to existing hierarchy.");
                Ok(InjectAction::Write { contents, message: m })
            }
        },
    }
}

} // verus!
