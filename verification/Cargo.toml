[package]
name = "syntax_editor_core"
version = "0.1.0"
edition = "2021"
publish = false

[dependencies]
anyhow = "1"
log = "0.4"
ropey = "1.6"
tree-sitter = "0.20"
tree-sitter-javascript = "0.20"
tree-sitter-md = "0.1"
tree-sitter-rust = "0.20"
tree-sitter-traversal = "0.1"
tree-sitter-typescript = "0.20"
