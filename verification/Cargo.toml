[package]
name = "ellama"
version = "0.1.0"
edition = "2021"
publish = false

[dependencies]
chrono = "=0.4.45"
timeago = "=0.6.1"
ollama-rs = { version = "=0.3.6", features = ["stream"] }
tokio = { version = "=1.53.2", features = ["rt-multi-thread", "macros", "sync"] }
tokio-stream = "=0.1.19"
serde = { version = "=1.0.229", features = ["derive"] }
serde_json = "=1.0.151"
ron = "=0.12.2"
anyhow = "=1.0.104"
log = "=0.4.34"
env_logger = "=0.11.11"
url = "=2.5.8"
