[package]
name = "tcp_tunnel"
version = "0.1.0"
edition = "2021"
publish = false

[dependencies]
rand = "0.8"
tokio = { version = "1", features = ["full"] }
serde = { version = "1", features = ["derive"] }
bincode = "1"
anyhow = "1"
backoff = { version = "0.4", features = ["tokio"] }
tracing = "0.1"
tracing-subscriber = "0.3"
axum = "0.6"
tower = { version = "0.4", features = ["util", "timeout", "load-shed", "limit"] }
tower-http = { version = "0.4", features = ["trace"] }
parking_lot = "0.12"
