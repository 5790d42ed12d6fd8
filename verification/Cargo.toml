[package]
name = "archives"
version = "0.1.0"
edition = "2021"
publish = false

[dependencies]
anyhow = "*"
axum = "*"
chrono = { version = "*", features = ["serde"] }
clickhouse = { version = "*", features = ["time", "uuid"] }
config = "*"
serde = { version = "*", features = ["derive"] }
serde_json = "*"
thiserror = "*"
time = "*"
tokio = { version = "*", features = ["full"] }
tower-http = { version = "*", features = ["cors", "trace", "timeout"] }
tracing = "*"
tracing-subscriber = { version = "*", features = ["env-filter", "json"] }
uuid = { version = "*", features = ["v4", "serde"] }
