[package]
name = "rust_can_bindings"
version = "0.1.0"
edition = "2021"
publish = false

[dependencies]
aligned-array = "1"
nix = { version = "*", features = ["net"] }
