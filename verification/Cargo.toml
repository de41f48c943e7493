[package]
name = "rustide"
version = "0.1.0"
edition = "2021"
publish = false

[dependencies]
anyhow = "1"
encoding_rs = "0.8"
ignore = "0.4"
notify = "*"
ropey = { version = "1", default-features = false }
streaming-iterator = "0.1"
thiserror = "*"
tree-sitter = "*"
tree-sitter-cpp = "*"
tree-sitter-hlsl = "*"
tree-sitter-python = "*"
