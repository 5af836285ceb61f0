[package]
name = "apalabrar"
version = "0.0.0"
edition = "2021"
publish = false

[dependencies]
loro = "1"
quick-xml = "0.37"
serde = { version = "1", features = ["derive"] }
serde_json = "1"
thiserror = "2"
wasm-bindgen = "0.2"
