[package]
name = "docs_auditor"
version = "0.1.0"
edition = "2021"
publish = false

[dependencies]
regex = "=1.13.1"
regex-syntax = "=0.8.11"
serde = { version = "=1.0.229", features = ["derive"] }
serde_json = "=1.0.154"
tokio = { version = "=1.54.1", features = ["full"] }
tower-lsp = "=0.20.0"
url = "=2.5.8"
tree-sitter = "=0.20.10"
tree-sitter-rust = "=0.20.4"
tree-sitter-typescript = "=0.20.5"
tree-sitter-python = "=0.20.4"
tree-sitter-go = "=0.20.0"
tree-sitter-c = "=0.20.8"
tree-sitter-cpp = "=0.20.5"
tree-sitter-c-sharp = "=0.20.0"
tree-sitter-ruby = "=0.20.1"
tree-sitter-swift = "=0.3.6"
tree-sitter-kotlin = ">=0.3, <0.3.6"
tree-sitter-java = "0.20"
