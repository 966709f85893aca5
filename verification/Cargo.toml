[package]
name = "edcore"
version = "0.1.0"
edition = "2021"
publish = false

[dependencies]
ropey = { version = "=1.6.1", default-features = false }
tree-sitter = "=0.27.0"
crossterm = "=0.25.0"
tui = "=0.19.0"
libloading = "=0.9.0"

[dev-dependencies]
tree-sitter-javascript = "=0.25.0"
