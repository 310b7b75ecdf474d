[package]
name = "xpoz"
version = "0.1.0"
edition = "2021"
publish = false

[dependencies]
shellexpand = "2"
walkdir = "2"
notify = "4"
log = "0.4"
env_logger = "0.10"
serde = { version = "1", features = ["derive"] }
serde_json = "1"
