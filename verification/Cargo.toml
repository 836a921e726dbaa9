[package]
name = "export_collision"
version = "0.1.0"
edition = "2021"
publish = false

[dependencies]
oxc_diagnostics = "0.5.0"
oxc_semantic = "0.5.0"
oxc_span = "0.5.0"
rustc-hash = "2.1"

[dev-dependencies]
serde_json = "1"
