[package]
name = "fzf-make"
version = "0.1.0"
edition = "2021"
publish = false

[dependencies]
anyhow = "1"
arboard = "3"
codespan = "0.11"
colored = "2"
fuzzy-matcher = "0.3"
json-spanned-value = "*"
ratatui = "0.29"
serde = { version = "1", features = ["derive"] }
serde_json = "1"
simple-home-dir = "0.4"
toml = "0.8"
tree-sitter = "*"
tree-sitter-just = "0.1"
tui-textarea = "0.7"
update-informer = "1"
