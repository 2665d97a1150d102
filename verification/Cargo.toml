[package]
name = "task_store"
version = "0.1.0"
edition = "2021"
publish = false

[dependencies]
chrono = "0.4"
owo-colors = "4"
serde = { version = "1", features = ["derive"] }
serde_json = { version = "1", features = ["preserve_order"] }
uuid = { version = "1", features = ["v4"] }
