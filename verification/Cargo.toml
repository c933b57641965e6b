[package]
name = "llmcache"
version = "0.1.0"
edition = "2021"
publish = false

[dependencies]
ferriskey = "=0.15.0"
serde_json = "=1.0.154"
serde = { version = "=1.0.229", features = ["derive"] }
anyhow = "=1.0.104"
axum = "=0.8.9"
axum-anyhow = "=0.11.14"
tokio = { version = "=1.54.1", features = ["full"] }
tracing = "=0.1.44"
tracing-stackdriver = "=0.10.0"
tracing-subscriber = "=0.3.23"
fastembed = { version = "=7.5.0", default-features = false, features = ["ort-load-dynamic", "hf-hub-rustls-tls"] }
