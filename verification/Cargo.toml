[package]
name = "workspace_analyzer"
version = "0.1.0"
edition = "2021"
publish = false

[dependencies]
regex = "1"
blake3 = "1"
num_cpus = "1"
serde = { version = "1", features = ["derive"] }
serde_json = "1"
toml = "0.8"
bincode = "1"
flate2 = "1"
anyhow = "1"
thiserror = "1"
walkdir = "2"
cargo_metadata = "*"
tree-sitter = "*"
tree-sitter-rust = "*"
tokio = { version = "1", features = ["rt-multi-thread", "macros", "sync", "time"] }
neo4rs = "*"
