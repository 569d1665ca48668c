[package]
name = "plottable_dots"
version = "0.1.0"
edition = "2021"
publish = false

[dependencies]
bs58 = "=0.5.1"
rand = "=0.8.8"
svg = "=0.18.0"
serde = { version = "=1.0.229", features = ["derive"] }
serde_json = "=1.0.151"
wasm-bindgen = { version = "=0.2.129", features = ["serde-serialize"] }
