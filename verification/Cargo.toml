[package]
name = "wsbench"
version = "0.1.0"
edition = "2021"
publish = false

[dependencies]
serde = { version = "*", features = ["derive"] }
serde_json = "*"
chrono = "*"
url = "*"
tokio = { version = "*", features = ["full"] }
tokio-tungstenite = "*"
futures = "*"
log = "*"
env_logger = "*"
