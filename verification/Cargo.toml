[package]
name = "pycomplexity"
version = "0.1.0"
edition = "2021"
publish = false

[dependencies]
anyhow = "*"
clap = { version = "*", features = ["derive"] }
comfy-table = "*"
serde = { version = "*", features = ["derive"] }
serde_json = "*"
tree-sitter = "0.20"
tree-sitter-python = "0.20"
walkdir = "*"
