//! Registering a module file in its parent module: naming the module,
//! choosing the file that should declare it, validating the name, and
//! previewing and applying the declaration.
use vstd::prelude::*;

use crate::paths::{
    file_name, file_name_is, file_stem, join_path, opt_view, parent, path_file_stem, path_join,
    path_parent,
};
use crate::rust_items::{declares_module, module_is_declared, rust_file_items};
use crate::text::{chars_of, eq_lit, string_from, trim, trim_end, trim_end_str, trim_str};

verus! {

#[derive(Clone, Debug, PartialEq, Eq)]
pub enum ModuleVisibility {
    Private,
    Public,
    PublicCrate,
}

impl ModuleVisibility {
    pub open spec fn prefix_text(&self) -> Seq<char> {
        match self {
            ModuleVisibility::Private => "mod"@,
            ModuleVisibility::Public => "pub mod"@,
            ModuleVisibility::PublicCrate => "pub(crate) mod"@,
        }
    }

    /// The keywords that open a declaration of this visibility.
    pub fn declaration_prefix(&self) -> (r: &'static str)
        ensures
            r@ == self.prefix_text(),
    {
        match self {
            ModuleVisibility::Private => "mod",
            ModuleVisibility::Public => "pub mod",
            ModuleVisibility::PublicCrate => "pub(crate) mod",
        }
    }

    /// The visibility that a label names; any text but `mod` and
    /// `pub(crate) mod` names `pub mod`.
    pub open spec fn named(label: Seq<char>) -> ModuleVisibility {
        if label == "mod"@ {
            ModuleVisibility::Private
        } else if label == "pub(crate) mod"@ {
            ModuleVisibility::PublicCrate
        } else {
            ModuleVisibility::Public
        }
    }

    /// The visibility chosen by its label in the visibility picker.
    pub fn from_label(label: &str) -> (r: ModuleVisibility)
        ensures
            r == ModuleVisibility::named(label@),
    {
        let l = chars_of(label);
        if eq_lit(&l, "mod") {
            ModuleVisibility::Private
        } else if eq_lit(&l, "pub(crate) mod") {
            ModuleVisibility::PublicCrate
        } else {
            ModuleVisibility::Public
        }
    }

    /// The name shown for this visibility; the same text as the prefix.
    pub fn label(&self) -> (r: &'static str)
        ensures
            r@ == self.prefix_text(),
    {
        match self {
            ModuleVisibility::Private => "mod",
            ModuleVisibility::Public => "pub mod",
            ModuleVisibility::PublicCrate => "pub(crate) mod",
        }
    }
}

/// A request to declare `module_name` in `target_file`.
#[derive(Clone, Debug, PartialEq, Eq)]
pub struct RegisterModuleRequest {
    pub target_file: String,
    pub module_name: String,
    pub visibility: ModuleVisibility,
}

/// What registering a module would change.
#[derive(Clone, Debug, PartialEq, Eq)]
pub struct RegisterModulePreview {
    pub target_file: String,
    pub module_name: String,
    pub declaration: String,
    pub already_declared: bool,
    pub before: String,
    pub after: String,
    pub preview_diff: String,
}

/// Why a module could not be named, previewed or registered.
#[derive(Clone, Debug, PartialEq, Eq)]
pub enum RegisterModuleError {
    /// The selected path has no file name.
    NoModuleName,
    /// The selected file is `mod.rs`, `lib.rs` or `main.rs` (its stem).
    CrateRootFile(String),
    EmptyModuleName,
    /// The first character is neither a letter nor `_`.
    InvalidStart,
    /// The name, and its first character that is no letter, digit or `_`.
    InvalidChar(String, char),
    /// The target file could not be read.
    ReadFailed(String),
    /// The target file could not be written.
    WriteFailed(String),
    /// The target file is no valid Rust; the parser's message.
    ParseFailed(String),
}

impl RegisterModuleError {
    pub open spec fn message_text(&self) -> Seq<char> {
        match self {
            RegisterModuleError::NoModuleName => "Could not derive module name from selected file path"@,
            RegisterModuleError::CrateRootFile(stem) => "Selected file '"@ + stem@
                + "' is a crate/module root, not a child module file"@,
            RegisterModuleError::EmptyModuleName => "Module name cannot be empty"@,
            RegisterModuleError::InvalidStart => "Module name must start with a letter or underscore"@,
            RegisterModuleError::InvalidChar(name, c) => "Module name '"@ + name@
                + "' contains invalid character '"@ + seq![*c] + "'"@,
            RegisterModuleError::ReadFailed(path) => "Could not read target file "@ + path@,
            RegisterModuleError::WriteFailed(path) => "Could not write "@ + path@,
            RegisterModuleError::ParseFailed(msg) => msg@,
        }
    }

    /// The text shown for this error.
    pub fn message(&self) -> (r: String)
        ensures
            r@ == self.message_text(),
    {
        match self {
            RegisterModuleError::NoModuleName => string_from(
                "Could not derive module name from selected file path",
            ),
            RegisterModuleError::CrateRootFile(stem) => {
                let mut r = string_from("Selected file '");
                r.append(stem.as_str());
                r.append("' is a crate/module root, not a child module file");
                r
            },
            RegisterModuleError::EmptyModuleName => string_from("Module name cannot be empty"),
            RegisterModuleError::InvalidStart => string_from(
                "Module name must start with a letter or underscore",
            ),
            RegisterModuleError::InvalidChar(name, c) => {
                let mut r = string_from("Module name '");
                r.append(name.as_str());
                r.append("' contains invalid character '");
                let cs = crate::text::string_of(&vec![*c]);
                r.append(cs.as_str());
                r.append("'");
                r
            },
            RegisterModuleError::ReadFailed(path) => {
                let mut r = string_from("Could not read target file ");
                r.append(path.as_str());
                r
            },
            RegisterModuleError::WriteFailed(path) => {
                let mut r = string_from("Could not write ");
                r.append(path.as_str());
                r
            },
            RegisterModuleError::ParseFailed(msg) => msg.clone(),
        }
    }
}

pub open spec fn summary_text(p: RegisterModulePreview) -> Seq<char> {
    if p.already_declared {
        "[PREVIEW] Module '"@ + p.module_name@ + "' is already declared in "@ + p.target_file@
            + "."@
    } else {
        "[PREVIEW] Would add '"@ + trim(p.declaration@) + "' to "@ + p.target_file@ + "."@
    }
}

impl RegisterModulePreview {
    /// One line that says what the preview found.
    pub fn summary(&self) -> (r: String)
        ensures
            r@ == summary_text(*self),
    {
        if self.already_declared {
            let mut r = string_from("[PREVIEW] Module '");
            r.append(self.module_name.as_str());
            r.append("' is already declared in ");
            r.append(self.target_file.as_str());
            r.append(".");
            r
        } else {
            let d = trim_str(self.declaration.as_str());
            let mut r = string_from("[PREVIEW] Would add '");
            r.append(d.as_str());
            r.append("' to ");
            r.append(self.target_file.as_str());
            r.append(".");
            r
        }
    }
}

pub open spec fn is_crate_root_stem(stem: Seq<char>) -> bool {
    stem == "mod"@ || stem == "lib"@ || stem == "main"@
}

/// The module that a file defines is named by the file's stem; the root
/// files `mod.rs`, `lib.rs` and `main.rs` define none.
pub fn module_name_from_file_path(path: &str) -> (r: Result<String, RegisterModuleError>)
    ensures
        match file_stem(path@) {
            None => r == Err::<String, RegisterModuleError>(RegisterModuleError::NoModuleName),
            Some(stem) => if is_crate_root_stem(stem) {
                r matches Err(RegisterModuleError::CrateRootFile(s)) && s@ == stem
            } else {
                r matches Ok(s) && s@ == stem
            },
        },
{
    match path_file_stem(path) {
        None => Err(RegisterModuleError::NoModuleName),
        Some(stem) => {
            let v = chars_of(stem.as_str());
            if crate::text::eq_lit(&v, "mod") || crate::text::eq_lit(&v, "lib")
                || crate::text::eq_lit(&v, "main") {
                Err(RegisterModuleError::CrateRootFile(stem))
            } else {
                Ok(stem)
            }
        },
    }
}

/// The nearest of `p` and its ancestors whose file name is `src`.
pub open spec fn nearest_src_dir(p: Seq<char>) -> Option<Seq<char>>
    decreases p.len(),
{
    if file_name(p) == Some("src"@) {
        Some(p)
    } else {
        match parent(p) {
            Some(q) => {
                proof {
                    crate::paths::lemma_parent_shorter(p);
                }
                if q.len() < p.len() {
                    nearest_src_dir(q)
                } else {
                    None
                }
            },
            None => None,
        }
    }
}

/// The parent of `p`, or `.` where it has none.
pub open spec fn parent_or_dot(p: Seq<char>) -> Seq<char> {
    match parent(p) {
        Some(q) => q,
        None => "."@,
    }
}

/// Where the crate root `root_file` of the crate that holds `selected`
/// would be: in the nearest ancestor named `src`, else beside `selected`.
pub open spec fn src_root_candidate(selected: Seq<char>, root_file: Seq<char>) -> Seq<char> {
    match nearest_src_dir(selected) {
        Some(d) => join_path(d, root_file),
        None => join_path(parent_or_dot(selected), root_file),
    }
}

fn parent_or_dot_exec(p: &str) -> (r: String)
    ensures
        r@ == parent_or_dot(p@),
{
    match path_parent(p) {
        Some(q) => q,
        None => string_from("."),
    }
}

/// The path of `root_file` in the nearest ancestor of `selected_file` named
/// `src`, or beside `selected_file` when there is none.
pub fn find_src_root_candidate(selected_file: &str, root_file: &str) -> (r: String)
    ensures
        r@ == src_root_candidate(selected_file@, root_file@),
{
    let mut cur = string_from(selected_file);
    loop
        invariant
            nearest_src_dir(selected_file@) == nearest_src_dir(cur@),
        decreases cur@.len(),
    {
        if file_name_is(cur.as_str(), "src") {
            return path_join(cur.as_str(), root_file);
        }
        match path_parent(cur.as_str()) {
            Some(q) => {
                proof {
                    crate::paths::lemma_parent_shorter(cur@);
                }
                cur = q;
            },
            None => {
                let base = parent_or_dot_exec(selected_file);
                return path_join(base.as_str(), root_file);
            },
        }
    }
}

/// The file that should declare the module in `selected`, given which
/// candidates exist: `mod.rs` beside it, else the crate's `lib.rs`, else
/// its `main.rs`, else `mod.rs` beside it.
pub open spec fn target_choice(
    selected: Seq<char>,
    sibling_mod_exists: bool,
    src_lib_exists: bool,
    src_main_exists: bool,
) -> Seq<char> {
    let sibling_mod = join_path(parent_or_dot(selected), "mod.rs"@);
    if sibling_mod_exists {
        sibling_mod
    } else if src_lib_exists {
        src_root_candidate(selected, "lib.rs"@)
    } else if src_main_exists {
        src_root_candidate(selected, "main.rs"@)
    } else {
        sibling_mod
    }
}

/// `mod.rs` beside `selected_file`.
pub fn sibling_mod_file(selected_file: &str) -> (r: String)
    ensures
        r@ == join_path(parent_or_dot(selected_file@), "mod.rs"@),
{
    let parent = parent_or_dot_exec(selected_file);
    path_join(parent.as_str(), "mod.rs")
}

/// The file that should declare the module in `selected_file`, for the
/// given answers to whether each candidate exists.
pub fn choose_target_file(
    selected_file: &str,
    sibling_mod_exists: bool,
    src_lib_exists: bool,
    src_main_exists: bool,
) -> (r: String)
    ensures
        r@ == target_choice(selected_file@, sibling_mod_exists, src_lib_exists, src_main_exists),
{
    if sibling_mod_exists {
        sibling_mod_file(selected_file)
    } else if src_lib_exists {
        find_src_root_candidate(selected_file, "lib.rs")
    } else if src_main_exists {
        find_src_root_candidate(selected_file, "main.rs")
    } else {
        sibling_mod_file(selected_file)
    }
}

/// The file that should declare the module in `selected_file`, as the file
/// system stands: the first that exists of `mod.rs` beside it, the crate's
/// `lib.rs` and its `main.rs`, else `mod.rs` beside it.
pub fn guess_target_file_for_module(selected_file: &str) -> (r: String)
    ensures
        exists|a: bool, b: bool, c: bool| r@ == target_choice(selected_file@, a, b, c),
{
    let sibling_mod = sibling_mod_file(selected_file);
    let sibling_mod_exists = crate::paths::path_exists(sibling_mod.as_str());
    let src_lib_exists = !sibling_mod_exists && crate::paths::path_exists(
        find_src_root_candidate(selected_file, "lib.rs").as_str(),
    );
    let src_main_exists = !sibling_mod_exists && !src_lib_exists && crate::paths::path_exists(
        find_src_root_candidate(selected_file, "main.rs").as_str(),
    );
    choose_target_file(selected_file, sibling_mod_exists, src_lib_exists, src_main_exists)
}

pub open spec fn is_ident_start(c: char) -> bool {
    c == '_' || ('a' <= c && c <= 'z') || ('A' <= c && c <= 'Z')
}

pub open spec fn is_ident_continue(c: char) -> bool {
    is_ident_start(c) || ('0' <= c && c <= '9')
}

/// The first position after the first at which `name` holds a character
/// that cannot continue an identifier.
pub open spec fn first_bad(name: Seq<char>, i: int) -> bool {
    1 <= i < name.len() && !is_ident_continue(name[i]) && forall|k: int|
        1 <= k < i ==> is_ident_continue(#[trigger] name[k])
}

/// A module name is a non-empty identifier of ASCII letters, digits and
/// `_` that does not start with a digit.
pub open spec fn valid_module_name(name: Seq<char>) -> bool {
    name.len() > 0 && is_ident_start(name[0]) && forall|k: int|
        1 <= k < name.len() ==> is_ident_continue(#[trigger] name[k])
}

fn is_ident_start_exec(c: char) -> (b: bool)
    ensures
        b == is_ident_start(c),
{
    c == '_' || ('a' <= c && c <= 'z') || ('A' <= c && c <= 'Z')
}

fn is_ident_continue_exec(c: char) -> (b: bool)
    ensures
        b == is_ident_continue(c),
{
    is_ident_start_exec(c) || ('0' <= c && c <= '9')
}

/// The error that names why `name`, which is no valid module name, is
/// refused: it is empty, or starts wrongly, or holds a bad character (the
/// first one after its first character).
pub open spec fn name_error(name: Seq<char>, e: RegisterModuleError) -> bool {
    if name.len() == 0 {
        e == RegisterModuleError::EmptyModuleName
    } else if !is_ident_start(name[0]) {
        e == RegisterModuleError::InvalidStart
    } else {
        e matches RegisterModuleError::InvalidChar(n, c) && n@ == name && exists|i: int|
            first_bad(name, i) && name[i] == c
    }
}

/// Checks that `module_name` can name a module, and says why not.
pub fn validate_module_name(module_name: &str) -> (r: Result<(), RegisterModuleError>)
    ensures
        r is Ok <==> valid_module_name(module_name@),
        r matches Err(e) ==> name_error(module_name@, e),
{
    let v = chars_of(module_name);
    if v.len() == 0 {
        return Err(RegisterModuleError::EmptyModuleName);
    }
    if !is_ident_start_exec(v[0]) {
        return Err(RegisterModuleError::InvalidStart);
    }
    let mut i: usize = 1;
    while i < v.len()
        invariant
            1 <= i <= v.len(),
            v@ == module_name@,
            is_ident_start(v@[0]),
            forall|k: int| 1 <= k < i ==> is_ident_continue(#[trigger] v@[k]),
        decreases v.len() - i,
    {
        if !is_ident_continue_exec(v[i]) {
            assert(first_bad(module_name@, i as int));
            return Err(RegisterModuleError::InvalidChar(string_from(module_name), v[i]));
        }
        i = i + 1;
    }
    Ok(())
}

/// `source` without trailing whitespace, then a line break unless that
/// leaves nothing, then `declaration`.
pub open spec fn appended_text(source: Seq<char>, declaration: Seq<char>) -> Seq<char> {
    let t = trim_end(source);
    if t.len() == 0 {
        declaration
    } else {
        t + "\n"@ + declaration
    }
}

/// Adds `declaration` at the end of `source`, after one line break.
pub fn append_declaration(source: &str, declaration: &str) -> (r: String)
    ensures
        r@ == appended_text(source@, declaration@),
{
    let mut output = trim_end_str(source);
    if output.as_str().unicode_len() > 0 {
        output.append("\n");
    }
    output.append(declaration);
    output
}

/// `pub mod name;` and a line break, with the visibility's keywords.
pub open spec fn declaration_text(visibility: ModuleVisibility, name: Seq<char>) -> Seq<char> {
    visibility.prefix_text() + " "@ + name + ";\n"@
}

pub open spec fn already_declared_diff(target: Seq<char>, name: Seq<char>) -> Seq<char> {
    "No changes.\n\n"@ + target + " already contains a module declaration for '"@ + name
        + "'."@
}

pub open spec fn addition_diff(target: Seq<char>, declaration: Seq<char>) -> Seq<char> {
    "--- "@ + target + "\n+++ "@ + target + "\n@@\n+ "@ + declaration
}

/// The preview that `build_register_module_preview` gives for a name that
/// passed validation and a target file that parsed.
pub open spec fn preview_matches(
    p: RegisterModulePreview,
    request: RegisterModuleRequest,
    before: Seq<char>,
    already: bool,
) -> bool {
    let name = trim(request.module_name@);
    let declaration = declaration_text(request.visibility, name);
    &&& p.target_file@ == request.target_file@
    &&& p.module_name@ == name
    &&& p.declaration@ == declaration
    &&& p.already_declared == already
    &&& p.before@ == before
    &&& p.after@ == if already {
        before
    } else {
        appended_text(before, declaration)
    }
    &&& p.preview_diff@ == if already {
        already_declared_diff(request.target_file@, name)
    } else {
        addition_diff(request.target_file@, declaration)
    }
}

/// Previews the declaration of `request.module_name` (trimmed) in
/// `request.target_file`, whose text is `before` (`None` where it could not
/// be read).
pub fn build_register_module_preview(
    request: RegisterModuleRequest,
    before: Option<String>,
) -> (r: Result<RegisterModulePreview, RegisterModuleError>)
    ensures
        !valid_module_name(trim(request.module_name@)) ==> (r matches Err(e) && name_error(
            trim(request.module_name@),
            e,
        )),
        valid_module_name(trim(request.module_name@)) ==> match before {
            None => (r matches Err(RegisterModuleError::ReadFailed(t)) && t@
                == request.target_file@),
            Some(b) => match rust_file_items(b@) {
                None => (r matches Err(RegisterModuleError::ParseFailed(_))),
                Some(items) => (r matches Ok(p) && preview_matches(
                    p,
                    request,
                    b@,
                    declares_module(items, trim(request.module_name@)),
                )),
            },
        },
{
    let target_file = request.target_file;
    let module_name = trim_str(request.module_name.as_str());
    match validate_module_name(module_name.as_str()) {
        Err(e) => {
            return Err(e);
        },
        Ok(()) => {},
    }
    let mut declaration = string_from(request.visibility.declaration_prefix());
    declaration.append(" ");
    declaration.append(module_name.as_str());
    declaration.append(";\n");
    let before = match before {
        Some(b) => b,
        None => {
            return Err(RegisterModuleError::ReadFailed(target_file));
        },
    };
    let already_declared = match module_is_declared(before.as_str(), module_name.as_str()) {
        Ok(d) => d,
        Err(msg) => {
            return Err(RegisterModuleError::ParseFailed(msg));
        },
    };
    let after = if already_declared {
        before.clone()
    } else {
        append_declaration(before.as_str(), declaration.as_str())
    };
    let preview_diff = if already_declared {
        let mut d = string_from("No changes.\n\n");
        d.append(target_file.as_str());
        d.append(" already contains a module declaration for '");
        d.append(module_name.as_str());
        d.append("'.");
        d
    } else {
        let mut d = string_from("--- ");
        d.append(target_file.as_str());
        d.append("\n+++ ");
        d.append(target_file.as_str());
        d.append("\n@@\n+ ");
        d.append(declaration.as_str());
        d
    };
    Ok(
        RegisterModulePreview {
            target_file,
            module_name,
            declaration,
            already_declared,
            before,
            after,
            preview_diff,
        },
    )
}

/// The text after appending ends with the declaration, and keeps the
/// original text, without its trailing whitespace, in front of it.
pub proof fn law_appended_text_ends_with_declaration(source: Seq<char>, declaration: Seq<char>)
    ensures
        crate::text::ends_with(appended_text(source, declaration), declaration),
        crate::text::starts_with(appended_text(source, declaration), trim_end(source)),
{
    let a = appended_text(source, declaration);
    let t = trim_end(source);
    assert(a.subrange(a.len() - declaration.len(), a.len() as int) =~= declaration);
    assert(a.subrange(0, t.len() as int) =~= t);
}

/// What applying a preview takes: nothing to write, with the message to
/// show, or a write of new contents to a file.
#[derive(Clone, Debug, PartialEq, Eq)]
pub enum ApplyPlan {
    AlreadyDeclared(String),
    Write { path: String, contents: String },
}

pub open spec fn verified_message(p: RegisterModulePreview) -> Seq<char> {
    "[VERIFIED] Module '"@ + p.module_name@ + "' is already declared in "@ + p.target_file@
        + "."@
}

pub open spec fn applied_message(p: RegisterModulePreview) -> Seq<char> {
    "[UPDATE] Added '"@ + trim(p.declaration@) + "' to "@ + p.target_file@ + "."@
}

/// The plan for applying `p`: a preview that already found the
/// declaration writes nothing and reports so; any other writes its `after`
/// text to its target file.
pub open spec fn is_apply_plan_of(r: ApplyPlan, p: RegisterModulePreview) -> bool {
    &&& p.already_declared ==> (r matches ApplyPlan::AlreadyDeclared(m) && m@ == verified_message(p))
    &&& !p.already_declared ==> (r matches ApplyPlan::Write { path, contents } && path@
        == p.target_file@ && contents@ == p.after@)
}

/// A preview that already found the declaration writes nothing; any other
/// writes its `after` text to its target file.
pub fn plan_apply_register_module(preview: &RegisterModulePreview) -> (r: ApplyPlan)
    ensures
        is_apply_plan_of(r, *preview),
{
    if preview.already_declared {
        let mut m = string_from("[VERIFIED] Module '");
        m.append(preview.module_name.as_str());
        m.append("' is already declared in ");
        m.append(preview.target_file.as_str());
        m.append(".");
        ApplyPlan::AlreadyDeclared(m)
    } else {
        ApplyPlan::Write { path: preview.target_file.clone(), contents: preview.after.clone() }
    }
}

/// What is reported once the preview's `after` text has been written.
pub fn applied_register_message(preview: &RegisterModulePreview) -> (r: String)
    ensures
        r@ == applied_message(*preview),
{
    let d = trim_str(preview.declaration.as_str());
    let mut m = string_from("[UPDATE] Added '");
    m.append(d.as_str());
    m.append("' to ");
    m.append(preview.target_file.as_str());
    m.append(".");
    m
}

/// Choosing a visibility by its label gives back that visibility.
pub proof fn law_visibility_label_round_trip(v: ModuleVisibility)
    ensures
        ModuleVisibility::named(v.prefix_text()) == v,
{
    reveal_strlit("mod");
    reveal_strlit("pub mod");
    reveal_strlit("pub(crate) mod");
    assert("mod"@.len() == 3);
    assert("pub mod"@.len() == 7);
    assert("pub(crate) mod"@.len() == 14);
}

} // verus!
