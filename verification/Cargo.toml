[package]
name = "dirge_plugin"
version = "0.1.0"
edition = "2021"
publish = false

[dependencies]
janetrs = "*"
serde_json = "1"
tokio = { version = "1", features = ["rt", "sync", "time"] }
