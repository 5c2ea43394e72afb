//! The module graph's data and how its node paths are found on disk.
use vstd::prelude::*;

use crate::file_manager::{is_placeholder_workspace, placeholder_text};
use crate::paths::{is_absolute, join_path, parent, path_is_absolute, path_join, path_parent};
use crate::text::{string_from, trim};

verus! {

/// A link from one module node to another, by node id.
#[derive(Clone, Debug, PartialEq, Eq)]
pub struct Edge {
    pub source: String,
    pub target: String,
}

pub open spec fn resolved_path(active: Seq<char>, node: Seq<char>) -> Seq<char> {
    if is_absolute(node) {
        node
    } else if active == placeholder_text() || trim(active).len() == 0 {
        node
    } else {
        join_path(active, node)
    }
}

/// The file that a node's path names: an absolute path as it is, else the
/// path under the active workspace, when there is one.
pub fn resolve_node_path(active_path: &str, node_path: &str) -> (r: String)
    ensures
        r@ == resolved_path(active_path@, node_path@),
{
    if path_is_absolute(node_path) {
        return string_from(node_path);
    }
    if is_placeholder_workspace(active_path) {
        return string_from(node_path);
    }
    path_join(active_path, node_path)
}

/// The views of the module graph.
#[derive(Clone, Copy, Debug, PartialEq, Eq, Structural)]
pub enum GraphView {
    NodeFileManager,
    Heatmap,
    Dependency,
    Types,
    Calls,
    Hierarchy,
}

pub open spec fn view_for(mode: Seq<char>) -> GraphView {
    if mode == "node_file_manager"@ {
        GraphView::NodeFileManager
    } else if mode == "Complexity"@ {
        GraphView::Heatmap
    } else if mode == "Dependency"@ {
        GraphView::Dependency
    } else if mode == "Types"@ {
        GraphView::Types
    } else if mode == "Calls"@ {
        GraphView::Calls
    } else {
        GraphView::Hierarchy
    }
}

/// The view that the graph area shows for the selected view mode; any
/// other mode shows the hierarchy.
pub fn view_for_mode(mode: &str) -> (r: GraphView)
    ensures
        r == view_for(mode@),
{
    let m = crate::text::chars_of(mode);
    if crate::text::eq_lit(&m, "node_file_manager") {
        GraphView::NodeFileManager
    } else if crate::text::eq_lit(&m, "Complexity") {
        GraphView::Heatmap
    } else if crate::text::eq_lit(&m, "Dependency") {
        GraphView::Dependency
    } else if crate::text::eq_lit(&m, "Types") {
        GraphView::Types
    } else if crate::text::eq_lit(&m, "Calls") {
        GraphView::Calls
    } else {
        GraphView::Hierarchy
    }
}

/// The folder to open for `path`: the path itself when it is a folder,
/// else its parent, or `.` where it has none.
pub open spec fn containing_folder(path: Seq<char>, is_dir: bool) -> Seq<char> {
    if is_dir {
        path
    } else {
        match parent(path) {
            Some(p) => p,
            None => "."@,
        }
    }
}

/// The folder that the file actions open for `path`; `is_dir` tells
/// whether it is a folder.
pub fn containing_folder_for(path: &str, is_dir: bool) -> (r: String)
    ensures
        r@ == containing_folder(path@, is_dir),
{
    if is_dir {
        string_from(path)
    } else {
        match path_parent(path) {
            Some(p) => p,
            None => string_from("."),
        }
    }
}

/// An absolute node path names its file wherever the workspace is.
pub proof fn law_absolute_node_path_is_kept(active: Seq<char>, node: Seq<char>)
    requires
        is_absolute(node),
    ensures
        resolved_path(active, node) == node,
{
}

} // verus!
