[package]
name = "heyrnode"
version = "0.1.0"
edition = "2021"
publish = false

[dependencies]
bytes = "1"
serialport = { version = "4", default-features = false }
tracing = "0.1"
tokio = { version = "1", default-features = false, features = ["sync", "rt"] }
tokio-stream = "0.1"
futures-util = "0.3"
