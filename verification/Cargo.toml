[package]
name = "trusted_publishing"
version = "0.1.0"
edition = "2021"
publish = false

[dependencies]
tree-sitter = "=0.27.1"
tree-sitter-bash = "=0.25.1"
tree-sitter-powershell = "=0.26.6"
