[package]
name = "rcli"
version = "0.1.0"
edition = "2021"
publish = false

[dependencies]
anyhow = "=1.0.104"
axum = "=0.8.9"
base64 = "=0.22.1"
clap = { version = "=4.6.7", features = ["derive"] }
csv = "=1.4.0"
csv-core = "=0.1.13"
mime_guess = "=2.0.5"
rand = "=0.9.5"
serde_json = "=1.0.154"
tokio = { version = "=1.54.1", features = ["full"] }
tokio-util = { version = "=0.7.20", features = ["io"] }
tower = "=0.5.3"
tower-http = { version = "=0.6.11", features = ["compression-full", "fs", "set-header", "timeout", "trace"] }
tracing = "=0.1.44"
tracing-subscriber = "=0.3.23"
yaml_serde = "=0.10.7"

[dev-dependencies]
tempfile = "=3.27.0"
