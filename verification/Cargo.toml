[package]
name = "check-my-server"
version = "0.4.0"
edition = "2021"
publish = false

[dependencies]
anyhow = "1"
axum = "0.8"
libc = "0.2"
serde = { version = "1", features = ["derive"] }
serde_json = "1"
tokio = { version = "1", features = ["full"] }
tracing = "0.1"
tracing-subscriber = { version = "0.3", features = ["env-filter", "fmt"] }
