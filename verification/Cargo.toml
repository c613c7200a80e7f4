[package]
name = "fling"
version = "0.1.0"
edition = "2021"
publish = false

[dependencies]
anyhow = "1"
axum = { version = "0.8", default-features = false, features = ["ws", "tokio", "http1"] }
dashmap = "=6.2.1"
dirs = "6"
futures-util = { version = "0.3", default-features = false, features = ["sink", "std"] }
names = { version = "0.14", default-features = false }
serde_json = { version = "=1.0.154", features = ["preserve_order"] }
tokio = { version = "1", features = ["rt-multi-thread", "macros", "sync", "net"] }
tokio-tungstenite = { version = "0.30", features = ["rustls-tls-webpki-roots"] }
