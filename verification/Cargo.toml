[package]
name = "qcs_sdk_qir"
version = "0.1.0"
edition = "2021"
publish = false

[dependencies]
quil-rs = "*"
inkwell = "*"
either = "*"
clap = { version = "*", features = ["derive"] }
serde = { version = "*", features = ["derive"] }
serde_json = "*"
log = "*"
env_logger = "*"
eyre = "*"
thiserror = "*"
