[package]
name = "ai_callback"
version = "0.1.0"
edition = "2021"

[dependencies]
serde_json = "*"
serde = "*"
alfred-core = "*"
env_logger = "*"
