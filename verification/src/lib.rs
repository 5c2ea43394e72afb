//! Verified core of a Rust project manager: module registration, path
//! handling, quest-log parsing, heatmap metrics and file peeks.

pub mod app_state;
pub mod file_manager;
pub mod find_replace;
pub mod graph;
pub mod heatmap;
pub mod module_injection;
pub mod navigation;
pub mod text;
pub mod paths;
pub mod peek;
pub mod quest_log;
pub mod rust_items;
pub mod safety;
pub mod register_module;
pub mod watcher;
pub mod wiki_lookup;


