[package]
name = "ellama"
version = "0.1.0"
edition = "2021"
publish = false

[dependencies]
gemini-client-api = "=7.5.5"
serde_json = "=1.0.151"
chrono = "=0.4.45"
base64 = "=0.23.1"
mime = "=0.3.17"
image = "*"
tokio = { version = "=1.53.2", features = ["rt-multi-thread", "macros", "time", "fs", "sync"] }
tokio-stream = "=0.1.19"
mime_guess = "=2.0.5"
log = "=0.4.34"
env_logger = "=0.11.11"
serde = { version = "=1.0.229", features = ["derive"] }
ron = "=0.12.2"
