[package]
name = "rustcord"
version = "0.1.0"
edition = "2021"
publish = false

[dependencies]
tokio = { version = "*", features = ["rt-multi-thread", "macros", "time", "sync"] }
tokio-tungstenite = "*"
futures-util = "*"
futures-channel = "*"
url = "*"
reqwest = { version = "*", default-features = false }
