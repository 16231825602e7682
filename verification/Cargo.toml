[package]
name = "logview_core"
version = "0.1.0"
edition = "2021"
publish = false

[dependencies]
regex = "1"
serde_json = "1"
serde = { version = "1", features = ["derive"] }
chrono = "0.4"
ratatui = "*"
