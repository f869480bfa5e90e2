[package]
name = "pickpocket"
version = "0.1.0"
edition = "2021"
publish = false

[dependencies]
clap = "4"
futures = "0.3"
open = "5"
rand = "0.8"
reqwest = { version = "0.12", features = ["blocking"] }
serde = { version = "1", features = ["derive"] }
serde_json = "1"
serde_yaml = "0.9"
tokio = { version = "1", features = ["rt-multi-thread"] }
url = "2"
