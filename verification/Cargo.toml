[package]
name = "dawn_launcher"
version = "0.1.0"
edition = "2021"
publish = false

[dependencies]
pathdiff = "0.2"
rusqlite = { version = "*", features = ["bundled"] }
serde = { version = "1", features = ["derive"] }
serde_json = "1"
log = "0.4"
env_logger = "*"
