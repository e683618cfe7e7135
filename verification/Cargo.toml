[package]
name = "schedule-task"
version = "0.1.0"
edition = "2021"
publish = false

[dependencies]
chrono = "0.4"
serde = { version = "1", features = ["derive"] }
serde_json = "1"
tauri = { version = "2", default-features = false }
tokio = { version = "1", features = ["rt", "sync", "time"] }
tokio-cron-scheduler = "*"
uuid = { version = "1", features = ["v4"] }
