[package]
name = "soundpad"
version = "1.1.0"
edition = "2021"
publish = false

[dependencies]
uuid = { version = "1", features = ["v4"] }
serde = { version = "1", features = ["derive"] }
serde_json = "1"
anyhow = "1"
dirs = "*"
log = "0.4"
env_logger = "*"
