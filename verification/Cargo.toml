[package]
name = "amp_proxy"
version = "0.1.0"
edition = "2021"
publish = false

[dependencies]
serde_json = { version = "1", features = ["preserve_order"] }
url = "2"
serde = { version = "1", features = ["derive"] }
serde_yaml = "0.9"
axum = "0.8"
tokio = { version = "1", features = ["macros", "rt-multi-thread", "signal", "net", "time"] }
reqwest = { version = "0.12", default-features = false, features = ["rustls-tls", "stream"] }
futures-util = "0.3"
async-stream = "0.3"
tracing = "0.1"
tracing-subscriber = { version = "0.3", features = ["env-filter"] }
tracing-appender = "0.2"
tower = "0.5"
tower-http = { version = "0.6", features = ["trace"] }
dotenvy = "0.15"
chrono = "0.4"
ulid = "1"
anyhow = "1"
