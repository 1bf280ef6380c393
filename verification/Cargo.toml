[package]
name = "uptime_monitor"
version = "0.1.0"
edition = "2021"
publish = false

[dependencies]
chrono = "0.4"
reqwest = { version = "0.11", default-features = false }
serde = { version = "1", features = ["derive"] }
serde_json = "1"
worker = "*"
