[package]
name = "libkon"
version = "0.1.0"
edition = "2021"
publish = false

[dependencies]
nom = "7"
serde = { version = "1", features = ["derive"] }
serde_repr = "0.1"
serde-wasm-bindgen = "*"
wasm-bindgen = "0.2"
