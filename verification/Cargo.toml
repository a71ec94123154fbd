[package]
name = "royaos"
version = "0.1.0"
edition = "2021"
publish = false

[dependencies]
serde = { version = "*", features = ["derive"] }
serde_yaml = "*"
thiserror = "*"
log = "*"
env_logger = "*"
