[package]
name = "code_tags"
version = "0.1.0"
edition = "2021"
publish = false

[dependencies]
tree-sitter = "*"
tree-sitter-tags = "*"

[dev-dependencies]
tree-sitter-python = "*"
tree-sitter-javascript = "*"
