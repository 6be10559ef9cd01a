[package]
name = "miniblog"
version = "0.1.0"
edition = "2021"
publish = false

[dependencies]
iron = "*"
router = "*"
logger = "*"
env_logger = "*"
chrono = "0.4"
uuid = { version = "1", features = ["v4"] }
