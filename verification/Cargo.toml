[package]
name = "duinodcx"
version = "0.1.0"
edition = "2021"
publish = false

[dependencies]
anyhow = "=1.0.104"
axum = { version = "=0.8.9", features = ["ws"] }
tokio = { version = "=1.54.1", features = ["full"] }
serde = { version = "=1.0.229", features = ["derive"] }
serde_json = "=1.0.154"
serialport = { version = "=4.10.1", default-features = false }
rust-embed = { version = "=8.13.0", features = ["interpolate-folder-path"] }
mime_guess = "=2.0.5"
log = "=0.4.35"
env_logger = "=0.11.11"
