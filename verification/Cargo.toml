[package]
name = "rps_server"
version = "0.1.0"
edition = "2021"
publish = false

[dependencies]
env_logger = "*"
futures-util = "0.3"
log = "0.4"
rand = "*"
serde = { version = "1", features = ["derive"] }
serde_json = "1"
tokio = { version = "1", features = ["macros", "net", "rt-multi-thread"] }
tokio-tungstenite = "*"
