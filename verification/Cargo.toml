[package]
name = "void_proxy"
version = "0.1.0"
edition = "2021"
publish = false

[dependencies]
anyhow = "*"
axum = "*"
bytes = "=1.12.1"
chrono = "=0.4.45"
clap = { version = "*", features = ["derive"] }
lru = { version = "=0.18.5", default-features = false }
serde = { version = "*", features = ["derive"] }
sys-info = "=0.9.1"
tokio = { version = "*", features = ["full"] }
tokio-util = "*"
toml = "*"
tower = "*"
tower-http = { version = "*", features = ["cors"] }
tracing = "*"
tracing-subscriber = "*"
uuid = { version = "=1.27.0", features = ["v4"] }
