[package]
name = "macro_ui"
version = "0.1.0"
edition = "2021"
publish = false

[dependencies]
serde_json = "1"
egui = "0.27"
