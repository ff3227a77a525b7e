[package]
name = "resumable_download"
version = "0.1.0"
edition = "2021"
publish = false

[dependencies]
tokio-util = "0.7"
tokio = { version = "1", features = ["rt-multi-thread", "macros", "time"] }
futures = "0.3"
reqwest = { version = "0.12", default-features = false, features = ["stream", "rustls-tls"] }
reqwest-middleware = "0.4"
reqwest-retry = "0.7"
serde = { version = "1", features = ["derive"] }
serde_json = "1"
anyhow = "1"
lazy_static = "1"
