[package]
name = "redux"
version = "0.1.0"
edition = "2021"
publish = false

[dependencies]
serde = { version = "1", features = ["derive"] }
malloc_size_of = "*"
wasm-timer = "0.2"
