[package]
name = "mor_rust_code_gui_manager"
version = "0.1.0"
edition = "2021"
publish = false

[dependencies]
syn = { version = "2", features = ["full", "parsing"] }
anyhow = "1"
notify = "6"
tokio = { version = "1", features = ["sync", "rt", "macros"] }
futures-util = "0.3"
dioxus = "0.6"
rfd = "0.15"
arboard = { version = "3", default-features = false }
