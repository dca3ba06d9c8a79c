[package]
name = "claw_browser"
version = "0.1.0"
edition = "2021"
publish = false

[dependencies]
serde = { version = "=1.0.229", features = ["derive"] }
serde_json = "=1.0.154"
base64 = "=0.22.1"
vt100 = "=0.15.2"
url = "=2.5.8"
tokio = { version = "=1.54.1", features = ["full"] }
axum = "=0.7.9"
tower-http = { version = "=0.5.2", features = ["cors"] }
reqwest = { version = "=0.12.28", default-features = false, features = ["json", "stream"] }
futures-util = "=0.3.34"
portable-pty = "=0.8.1"
pty-process = { version = "=0.5.4", features = ["async"] }
