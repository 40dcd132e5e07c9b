[package]
name = "onvif_discovery"
version = "0.1.0"
edition = "2021"
publish = false

[dependencies]
uuid = { version = "0.8", features = ["v4"] }
tokio = { version = "0.2", features = ["full"] }
log = "0.4"
env_logger = "0.7"
failure = "0.1"
