[package]
name = "memeblink"
version = "0.1.0"
edition = "2021"
publish = false

[dependencies]
image = "0.25"
matrix-sdk = { version = "0.7", default-features = false, features = ["rustls-tls"] }
serde = { version = "1", features = ["derive"] }
serde_json = "1"
thiserror = "1"
log = "0.4"
tokio = { version = "1", features = ["sync", "rt", "macros"] }
reqwest = { version = "0.11", default-features = false, features = ["blocking", "rustls-tls"] }
pollster = "0.3"
raw-window-handle = "0.6"
