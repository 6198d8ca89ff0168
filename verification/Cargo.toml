[package]
name = "crate_triage"
version = "0.1.0"
edition = "2021"
publish = false

[dependencies]
tree-sitter = "0.20"
tree-sitter-rust = "0.20"
anyhow = "*"
clap = { version = "*", features = ["derive"] }
semver = { version = "*", features = ["serde"] }
serde = { version = "*", features = ["derive"] }
toml = "*"
walkdir = "*"
