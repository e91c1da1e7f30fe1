[package]
name = "codeatlas_core"
version = "0.1.0"
edition = "2021"
publish = false

[dependencies]
camino = { version = "1", features = ["serde1"] }
cargo_metadata = "*"
globset = "*"
ignore = "*"
petgraph = "*"
serde = { version = "1", features = ["derive"] }
serde_json = "1"
serde_yaml = "*"
thiserror = "*"
tokio-util = "*"
tracing = "*"
tree-sitter = "*"
tree-sitter-rust = "*"
tree-sitter-typescript = "*"
