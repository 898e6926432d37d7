[package]
name = "wasm_sandbox"
version = "0.1.0"
edition = "2021"
publish = false

[dependencies]
blake3 = "=1.8.7"
hex = "=0.4.3"
page_size = "=0.6.0"
nix = { version = "=0.31.3", features = ["mman", "signal"] }
errno = "=0.3.14"
