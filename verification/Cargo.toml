[package]
name = "dwd_alerts"
version = "0.1.0"
edition = "2021"

[dependencies]
chrono = "0.4"
reqwest = { version = "0.11", features = ["blocking"] }
serde = { version = "1", features = ["derive"] }
serde_json = "1"
