//! Documentation links for well-known files and for the project's wiki.
use vstd::prelude::*;

use crate::paths::{
    extension, file_name, is_plain_name, join_path, lemma_file_name_of_join, path_extension,
    path_file_name,
};
use crate::text::{chars_of, concat2, eq_lit, string_from, trim, trim_str};

verus! {

#[derive(Clone, Debug, PartialEq, Eq)]
pub enum WikiLookupKind {
    CommonDocs,
    ProjectWiki,
}

/// A link to documentation, with the label to show for it.
#[derive(Clone, Debug, PartialEq, Eq)]
pub struct WikiLookup {
    pub label: String,
    pub url: String,
    pub kind: WikiLookupKind,
}

pub open spec fn lookup_view(o: Option<WikiLookup>) -> Option<(Seq<char>, Seq<char>, WikiLookupKind)> {
    match o {
        Some(w) => Some((w.label@, w.url@, w.kind)),
        None => None,
    }
}

impl WikiLookup {
    /// A link to general documentation.
    pub fn common(label: &str, url: &str) -> (r: Self)
        ensures
            r.label@ == label@,
            r.url@ == url@,
            r.kind == WikiLookupKind::CommonDocs,
    {
        WikiLookup { label: string_from(label), url: string_from(url), kind: WikiLookupKind::CommonDocs }
    }

    /// A link into the project's own wiki.
    pub fn project(label: &str, url: &str) -> (r: Self)
        ensures
            r.label@ == label@,
            r.url@ == url@,
            r.kind == WikiLookupKind::ProjectWiki,
    {
        WikiLookup {
            label: string_from(label),
            url: string_from(url),
            kind: WikiLookupKind::ProjectWiki,
        }
    }
}

/// Label and address of the documentation for a file of this exact name.
pub open spec fn named_file_doc(name: Seq<char>) -> Option<(Seq<char>, Seq<char>)> {
    if name == "Cargo.toml"@ {
        Some(("Search Rust/File Wiki: Cargo.toml"@, "https://doc.rust-lang.org/cargo/reference/manifest.html"@))
    } else if name == "Cargo.lock"@ {
        Some(("Search Rust/File Wiki: Cargo.lock"@, "https://doc.rust-lang.org/cargo/guide/cargo-toml-vs-cargo-lock.html"@))
    } else if name == "build.rs"@ {
        Some(("Search Rust/File Wiki: build.rs"@, "https://doc.rust-lang.org/cargo/reference/build-scripts.html"@))
    } else if name == "lib.rs"@ {
        Some(("Search Rust/File Wiki: lib.rs"@, "https://doc.rust-lang.org/book/ch07-02-defining-modules-to-control-scope-and-privacy.html"@))
    } else if name == "main.rs"@ {
        Some(("Search Rust/File Wiki: main.rs"@, "https://doc.rust-lang.org/book/ch01-02-hello-world.html"@))
    } else if name == "mod.rs"@ {
        Some(("Search Rust/File Wiki: mod.rs"@, "https://doc.rust-lang.org/reference/items/modules.html"@))
    } else if name == ".gitignore"@ {
        Some(("Search Rust/File Wiki: .gitignore"@, "https://git-scm.com/docs/gitignore"@))
    } else if name == "README.md"@ || name == "README"@ {
        Some(("Search Rust/File Wiki: README.md"@, "https://www.markdownguide.org/basic-syntax/"@))
    } else {
        None
    }
}

/// Label and address of the documentation for files with this extension.
pub open spec fn extension_doc(ext: Seq<char>) -> Option<(Seq<char>, Seq<char>)> {
    if ext == "rs"@ {
        Some(("Search Rust/File Wiki: Rust source file"@, "https://doc.rust-lang.org/reference/items/modules.html"@))
    } else if ext == "toml"@ {
        Some(("Search Rust/File Wiki: TOML"@, "https://toml.io/en/"@))
    } else if ext == "md"@ {
        Some(("Search Rust/File Wiki: Markdown"@, "https://www.markdownguide.org/basic-syntax/"@))
    } else if ext == "css"@ {
        Some(("Search Rust/File Wiki: CSS"@, "https://developer.mozilla.org/en-US/docs/Web/CSS"@))
    } else if ext == "json"@ {
        Some(("Search Rust/File Wiki: JSON"@, "https://developer.mozilla.org/en-US/docs/Learn_web_development/Core/Scripting/JSON"@))
    } else {
        None
    }
}

pub open spec fn as_common(d: Option<(Seq<char>, Seq<char>)>) -> Option<(Seq<char>, Seq<char>, WikiLookupKind)> {
    match d {
        Some((l, u)) => Some((l, u, WikiLookupKind::CommonDocs)),
        None => None,
    }
}

/// The documentation link for a path: by its file name when that name is
/// well known, else by its extension.
pub open spec fn file_doc(p: Seq<char>) -> Option<(Seq<char>, Seq<char>, WikiLookupKind)> {
    match file_name(p) {
        None => None,
        Some(name) => match named_file_doc(name) {
            Some(d) => as_common(Some(d)),
            None => match extension(p) {
                None => None,
                Some(ext) => as_common(extension_doc(ext)),
            },
        },
    }
}

fn named_file_lookup(name: &Vec<char>) -> (r: Option<WikiLookup>)
    ensures
        lookup_view(r) == as_common(named_file_doc(name@)),
{
    if eq_lit(name, "Cargo.toml") {
        Some(WikiLookup::common("Search Rust/File Wiki: Cargo.toml", "https://doc.rust-lang.org/cargo/reference/manifest.html"))
    } else if eq_lit(name, "Cargo.lock") {
        Some(WikiLookup::common("Search Rust/File Wiki: Cargo.lock", "https://doc.rust-lang.org/cargo/guide/cargo-toml-vs-cargo-lock.html"))
    } else if eq_lit(name, "build.rs") {
        Some(WikiLookup::common("Search Rust/File Wiki: build.rs", "https://doc.rust-lang.org/cargo/reference/build-scripts.html"))
    } else if eq_lit(name, "lib.rs") {
        Some(WikiLookup::common("Search Rust/File Wiki: lib.rs", "https://doc.rust-lang.org/book/ch07-02-defining-modules-to-control-scope-and-privacy.html"))
    } else if eq_lit(name, "main.rs") {
        Some(WikiLookup::common("Search Rust/File Wiki: main.rs", "https://doc.rust-lang.org/book/ch01-02-hello-world.html"))
    } else if eq_lit(name, "mod.rs") {
        Some(WikiLookup::common("Search Rust/File Wiki: mod.rs", "https://doc.rust-lang.org/reference/items/modules.html"))
    } else if eq_lit(name, ".gitignore") {
        Some(WikiLookup::common("Search Rust/File Wiki: .gitignore", "https://git-scm.com/docs/gitignore"))
    } else if eq_lit(name, "README.md") || eq_lit(name, "README") {
        Some(WikiLookup::common("Search Rust/File Wiki: README.md", "https://www.markdownguide.org/basic-syntax/"))
    } else {
        None
    }
}

/// The documentation link for files with the extension of `path`.
fn extension_wiki_lookup(path: &str) -> (r: Option<WikiLookup>)
    ensures
        lookup_view(r) == match extension(path@) {
            None => None,
            Some(ext) => as_common(extension_doc(ext)),
        },
{
    let ext = match path_extension(path) {
        Some(e) => chars_of(e.as_str()),
        None => {
            return None;
        },
    };
    if eq_lit(&ext, "rs") {
        Some(WikiLookup::common("Search Rust/File Wiki: Rust source file", "https://doc.rust-lang.org/reference/items/modules.html"))
    } else if eq_lit(&ext, "toml") {
        Some(WikiLookup::common("Search Rust/File Wiki: TOML", "https://toml.io/en/"))
    } else if eq_lit(&ext, "md") {
        Some(WikiLookup::common("Search Rust/File Wiki: Markdown", "https://www.markdownguide.org/basic-syntax/"))
    } else if eq_lit(&ext, "css") {
        Some(WikiLookup::common("Search Rust/File Wiki: CSS", "https://developer.mozilla.org/en-US/docs/Web/CSS"))
    } else if eq_lit(&ext, "json") {
        Some(WikiLookup::common("Search Rust/File Wiki: JSON", "https://developer.mozilla.org/en-US/docs/Learn_web_development/Core/Scripting/JSON"))
    } else {
        None
    }
}

/// The documentation link for the file at `path`.
pub fn common_file_wiki_lookup(path: &str) -> (r: Option<WikiLookup>)
    ensures
        lookup_view(r) == file_doc(path@),
{
    let name = match path_file_name(path) {
        Some(n) => chars_of(n.as_str()),
        None => {
            return None;
        },
    };
    match named_file_lookup(&name) {
        Some(w) => Some(w),
        None => extension_wiki_lookup(path),
    }
}

pub open spec fn wiki_base() -> Seq<char> {
    "https://github.com/MoribundMurdoch/mor-rust-code-gui-manager/wiki"@
}

/// The page of the project wiki about `topic`.
pub open spec fn topic_slug(topic: Seq<char>) -> Option<Seq<char>> {
    if topic == "Inspect Mode"@ {
        Some("Inspect-Mode"@)
    } else if topic == "Automate Mode"@ {
        Some("Automate-Mode"@)
    } else if topic == "Safety Switch"@ {
        Some("Safety-Switch"@)
    } else if topic == "Node File Manager"@ {
        Some("Node-File-Manager"@)
    } else if topic == "Hierarchy"@ {
        Some("Hierarchy-View"@)
    } else if topic == "Dependency"@ {
        Some("Dependency-View"@)
    } else if topic == "Heatmap"@ {
        Some("Heatmap-View"@)
    } else if topic == "Types"@ {
        Some("Types-View"@)
    } else if topic == "Calls"@ {
        Some("Calls-View"@)
    } else if topic == "Register Module"@ {
        Some("Register-Module-Automation"@)
    } else if topic == "Preview"@ {
        Some("Preview"@)
    } else if topic == "Apply"@ {
        Some("Apply"@)
    } else if topic == "FileSystem Sync Log"@ {
        Some("FileSystem-Sync-Log"@)
    } else {
        None
    }
}

fn topic_slug_exec(topic: &Vec<char>) -> (r: Option<&'static str>)
    ensures
        match r {
            Some(s) => topic_slug(topic@) == Some(s@),
            None => topic_slug(topic@) is None,
        },
{
    if eq_lit(topic, "Inspect Mode") {
        Some("Inspect-Mode")
    } else if eq_lit(topic, "Automate Mode") {
        Some("Automate-Mode")
    } else if eq_lit(topic, "Safety Switch") {
        Some("Safety-Switch")
    } else if eq_lit(topic, "Node File Manager") {
        Some("Node-File-Manager")
    } else if eq_lit(topic, "Hierarchy") {
        Some("Hierarchy-View")
    } else if eq_lit(topic, "Dependency") {
        Some("Dependency-View")
    } else if eq_lit(topic, "Heatmap") {
        Some("Heatmap-View")
    } else if eq_lit(topic, "Types") {
        Some("Types-View")
    } else if eq_lit(topic, "Calls") {
        Some("Calls-View")
    } else if eq_lit(topic, "Register Module") {
        Some("Register-Module-Automation")
    } else if eq_lit(topic, "Preview") {
        Some("Preview")
    } else if eq_lit(topic, "Apply") {
        Some("Apply")
    } else if eq_lit(topic, "FileSystem Sync Log") {
        Some("FileSystem-Sync-Log")
    } else {
        None
    }
}

/// The project wiki's page for `topic`, for the topics the wiki covers.
pub fn project_wiki_lookup(topic: &str) -> (r: Option<WikiLookup>)
    ensures
        lookup_view(r) == match topic_slug(topic@) {
            None => None,
            Some(slug) => Some(
                (
                    "Search Project Wiki: "@ + topic@,
                    wiki_base() + "/"@ + slug,
                    WikiLookupKind::ProjectWiki,
                ),
            ),
        },
{
    let t = chars_of(topic);
    match topic_slug_exec(&t) {
        None => None,
        Some(slug) => {
            let mut label = string_from("Search Project Wiki: ");
            label.append(topic);
            let mut url = string_from("https://github.com/MoribundMurdoch/mor-rust-code-gui-manager/wiki");
            url.append("/");
            url.append(slug);
            Some(WikiLookup::project(label.as_str(), url.as_str()))
        },
    }
}

/// Where the search bar looks a term up.
#[derive(Clone, Copy, Debug, PartialEq, Eq, Structural)]
pub enum DocSearch {
    /// The standard library documentation.
    RustStd,
    /// The crate documentation on docs.rs.
    DocsRs,
}

pub open spec fn search_base(site: DocSearch) -> Seq<char> {
    match site {
        DocSearch::RustStd => "https://doc.rust-lang.org/std/?search="@,
        DocSearch::DocsRs => "https://docs.rs/releases/search?query="@,
    }
}

/// The search page for `query` (trimmed); `None` for a blank query.
pub fn doc_search_url(site: DocSearch, query: &str) -> (r: Option<String>)
    ensures
        trim(query@).len() == 0 <==> r is None,
        r matches Some(u) ==> u@ == search_base(site) + trim(query@),
{
    let q = trim_str(query);
    if chars_of(q.as_str()).len() == 0 {
        return None;
    }
    let base = match site {
        DocSearch::RustStd => "https://doc.rust-lang.org/std/?search=",
        DocSearch::DocsRs => "https://docs.rs/releases/search?query=",
    };
    Some(concat2(base, q.as_str()))
}

/// The documentation link of a file depends on its file name alone: the
/// same name gives the same link in any folder.
pub proof fn law_lookup_sees_only_the_file_name(dir: Seq<char>, name: Seq<char>)
    requires
        is_plain_name(name),
    ensures
        file_doc(join_path(dir, name)) == file_doc(name),
{
    lemma_file_name_of_join(dir, name);
}

} // verus!
