[package]
name = "pibaf"
version = "0.1.0"
edition = "2021"
publish = false

[dependencies]
ash = "0.38"
bon = "*"
env_logger = "*"
log = "0.4"
strum = { version = "*", features = ["derive"] }
thiserror = "*"
