[package]
name = "watch-party"
version = "0.1.0"
edition = "2021"
publish = false

[dependencies]
anyhow = "1"
bincode = "1.3"
blake3 = { version = "1", features = ["pure"] }
crossterm = { version = "0.27", features = ["event-stream"] }
futures = "0.3"
hmac = "0.12"
ratatui = "0.26"
serde = { version = "1", features = ["derive"] }
serde_json = "1"
sha2 = "0.10"
tokio = { version = "1", features = ["full"] }
tracing = "0.1"
