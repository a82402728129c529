[package]
name = "supervisor_core"
version = "0.1.0"
edition = "2021"
publish = false

[dependencies]
serde = { version = "1", features = ["derive"] }
serde_json = "1"
shell-words = "1"
tokio = { version = "1", default-features = false, features = ["sync", "rt", "time"] }
uuid = { version = "1", features = ["v4"] }
