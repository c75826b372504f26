[package]
name = "foundry-acp"
version = "0.1.0"
edition = "2021"
publish = false

[dependencies]
uuid = { version = "=1.29.0", features = ["v4", "v5", "serde"] }
chrono = { version = "=0.4.45", features = ["serde"] }
serde = { version = "=1.0.229", features = ["derive"] }
serde_json = "=1.0.154"
axum = "=0.8.9"
axum-server = { version = "*", features = ["tls-rustls"] }
tokio = { version = "=1.54.1", features = ["full"] }
tokio-stream = { version = "=0.1.19", features = ["sync"] }
futures-core = "=0.3.34"
tower-http = { version = "=0.6.11", features = ["cors", "trace"] }
rusqlite = { version = "=0.41.1", features = ["bundled"] }
dirs-next = "=2.0.0"
clap = { version = "=4.6.7", features = ["derive"] }
tracing = "=0.1.44"
tracing-subscriber = { version = "=0.3.23", features = ["env-filter"] }
metrics = "=0.24.6"
metrics-exporter-prometheus = "=0.18.3"
windows-service = "*"
