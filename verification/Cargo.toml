[package]
name = "tower-proxy"
version = "0.1.0"
edition = "2021"
publish = false

[dependencies]
http = "1"
hyper = { version = "1", features = ["client", "http1"] }
hyper-util = { version = "0.1", features = ["client-legacy", "http1", "tokio"] }
regex = "1"
axum = { version = "*", default-features = false }
tracing = "0.1"
