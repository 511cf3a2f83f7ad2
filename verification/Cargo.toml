[package]
name = "omrya"
version = "0.1.0"
edition = "2021"
publish = false

[dependencies]
tree-sitter = "0.26"
tree-sitter-rust = "0.24"
