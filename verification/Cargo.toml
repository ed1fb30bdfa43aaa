[package]
name = "voicy"
version = "0.1.0"
edition = "2021"
publish = false

[dependencies]
regex = "1"
serde = { version = "1", features = ["derive"] }
serde_json = "1"
log = "0.4"
env_logger = "0.11"
anyhow = "1"
byteorder = "1"
tokio = { version = "1", features = ["sync", "rt", "macros"] }
