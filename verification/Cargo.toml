[package]
name = "watercontroller"
version = "0.1.0"
edition = "2021"
publish = false

[dependencies]
anyhow = "=1.0.104"
axum = { version = "=0.7.9", features = ["ws"] }
chrono = "=0.4.45"
chrono-tz = "0.10"
env_logger = "=0.11.11"
heapless = "=0.8.0"
log = "=0.4.35"
parking_lot = "=0.12.5"
serde = { version = "=1.0.229", features = ["derive"] }
serde_json = "=1.0.154"
tokio = { version = "=1.54.1", features = ["rt-multi-thread", "macros", "net", "sync", "time"] }
ureq = "=2.12.1"
