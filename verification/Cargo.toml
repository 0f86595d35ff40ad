[package]
name = "elm_pair"
version = "0.1.0"
edition = "2021"
publish = false

[dependencies]
base64 = "=0.13.1"
ed25519-compact = "=1.0.16"
ropey = "=1.6.1"
tree-sitter = "=0.25.10"
tree-sitter-elm = "=5.9.4"
rmp = "=0.8.15"
byteorder = "=1.5.0"
dirs = "=4.0.0"
libc = "=0.2.191"
serde = { version = "=1.0.229", features = ["derive"] }
serde_json = "=1.0.154"
