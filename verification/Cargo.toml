[package]
name = "midware"
version = "0.1.0"
edition = "2021"
publish = false

[dependencies]
ntex = { version = "=2.18.0", features = ["tokio"] }
env_logger = "*"
