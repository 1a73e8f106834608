[package]
name = "authd_requests"
version = "0.1.0"
edition = "2021"
publish = false

[dependencies]
log = "0.4"
serde_json = "1"
sn_api = "*"
tokio = { version = "1", features = ["sync", "rt"] }
