[package]
name = "hyper-scheduler"
version = "0.1.0"
edition = "2021"
publish = false

[dependencies]
libc = "0.2"
nix = "0.26"
anyhow = "1"
chrono = "0.4"
crossbeam = "0.8"
lazy_static = "1"
once_cell = "1"
rand = "0.8"
serde = { version = "1", features = ["derive"] }
serde_json = "1"
tokio = { version = "1", features = ["full"] }
tracing = "0.1"
tracing-subscriber = "0.3"
axum = { version = "0.6", features = ["multipart"] }
reqwest = { version = "0.11", default-features = false, features = ["json"] }
wasmtime = "13"
wasmtime-wasi = "13"
