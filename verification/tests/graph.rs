use mor_rust_code_gui_manager::graph::{containing_folder_for, resolve_node_path, view_for_mode, Edge, GraphView};

#[test]
fn node_paths() {
    assert_eq!(resolve_node_path("/w", "src/lib.rs"), "/w/src/lib.rs");
    assert_eq!(resolve_node_path("/w/", "src/lib.rs"), "/w/src/lib.rs");
    assert_eq!(resolve_node_path("/w", "/abs/x.rs"), "/abs/x.rs");
    assert_eq!(resolve_node_path("Awaiting filesystem initialization...", "src/lib.rs"), "src/lib.rs");
    assert_eq!(resolve_node_path("   ", "src/lib.rs"), "src/lib.rs");
}

#[test]
fn graph_views() {
    assert_eq!(view_for_mode("node_file_manager"), GraphView::NodeFileManager);
    assert_eq!(view_for_mode("Complexity"), GraphView::Heatmap);
    assert_eq!(view_for_mode("Dependency"), GraphView::Dependency);
    assert_eq!(view_for_mode("Types"), GraphView::Types);
    assert_eq!(view_for_mode("Calls"), GraphView::Calls);
    assert_eq!(view_for_mode("Hierarchy"), GraphView::Hierarchy);
    assert_eq!(view_for_mode("anything"), GraphView::Hierarchy);
}

#[test]
fn edges_are_plain_data() {
    let e = Edge { source: "lib".into(), target: "ui".into() };
    assert_eq!(e.clone(), e);
}

#[test]
fn containing_folders() {
    assert_eq!(containing_folder_for("/proj/src/lib.rs", false), "/proj/src");
    assert_eq!(containing_folder_for("/proj/src", true), "/proj/src");
    assert_eq!(containing_folder_for("lib.rs", false), "");
    assert_eq!(containing_folder_for("/", false), ".");
}
