[package]
name = "hyperquark"
version = "0.1.0"
edition = "2021"
publish = false

[dependencies]
indexmap = "2"
wasm-encoder = "*"
serde = { version = "1", features = ["derive"] }
serde_json = "1"
petgraph = "*"
itertools = "*"
wasm-bindgen = "*"
serde-wasm-bindgen = "*"
