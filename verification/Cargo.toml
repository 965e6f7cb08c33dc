[package]
name = "anthropic_proxy"
version = "0.1.0"
edition = "2021"
publish = false

[dependencies]
serde_json = "*"
serde = { version = "*", features = ["derive"] }
axum = "*"
tokio = { version = "*", features = ["full"] }
reqwest = { version = "*", default-features = false, features = ["json", "stream"] }
clap = { version = "*", features = ["derive"] }
dotenvy = "*"
anyhow = "*"
futures = "*"
bytes = "*"
async-stream = "*"
tracing = "*"
tracing-subscriber = { version = "*", features = ["env-filter"] }
tower-http = { version = "*", features = ["cors", "trace"] }
