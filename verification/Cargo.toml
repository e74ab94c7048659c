[package]
name = "cedro"
version = "0.1.0"
edition = "2021"
publish = false

[dependencies]
ahash = "=0.8.12"
anyhow = "1"
async-nats = "0.38"
async-trait = "0.1"
axum = "=0.7.9"
bytes = "=1.12.1"
chrono = "0.4"
core_affinity = "0.8"
crossbeam-channel = "0.5"
dashmap = "=6.2.1"
libc = "0.2"
memchr = "=2.8.3"
metrics = "0.24"
metrics-exporter-prometheus = { version = "0.16", default-features = false, features = ["http-listener"] }
redis = { version = "0.27", features = ["tokio-comp"] }
rmp-serde = "=1.3.1"
serde = { version = "1", features = ["derive"] }
serde_json = "=1.0.154"
socket2 = "0.5"
thiserror = "1"
tokio = { version = "1", features = ["full"] }
tower-http = { version = "0.6", features = ["cors"] }
tracing = "0.1"
tracing-subscriber = { version = "0.3", features = ["env-filter", "json"] }
tikv-jemallocator = "0.6"
