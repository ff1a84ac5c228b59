[package]
name = "muninn-kernel"
version = "0.1.0"
edition = "2021"
publish = false

[dependencies]
async-trait = "0.1"
serde = { version = "1", features = ["derive"] }
serde_json = "1"
thiserror = "2"
tokio = { version = "1", features = ["sync", "time", "rt", "rt-multi-thread"] }
tokio-util = "0.7"
uuid = { version = "1", features = ["v4", "serde"] }
