[package]
name = "typst_editor"
version = "0.1.0"
edition = "2021"
publish = false

[dependencies]
ropey = "1.6"
unicode-segmentation = "1"
unicode-bidi = "0.3"
serde = { version = "1", features = ["derive"] }
serde_json = "1"
thiserror = "1"
tracing = "0.1"
tracing-subscriber = "0.3"
tokio = { version = "1", features = ["sync"] }
lsp-types = "0.95"
palette = "0.7"
typst-syntax = "*"
fontdb = "*"
