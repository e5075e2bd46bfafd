[package]
name = "rockserver"
version = "0.1.0"
edition = "2021"
publish = false

[dependencies]
anyhow = "1"
axum = "0.6"
base64 = "0.13"
dashmap = { version = "5", features = ["serde"] }
hyper = { version = "0.14", features = ["full"] }
md5 = "0.7"
reqwest = { version = "0.11", default-features = false }
serde = { version = "1", features = ["derive"] }
serde_json = "1"
serde_yaml = "0.9"
tokio = { version = "1", features = ["full"] }
tracing = "0.1"
tracing-subscriber = { version = "0.3", features = ["env-filter"] }
