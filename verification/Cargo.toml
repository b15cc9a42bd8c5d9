[package]
name = "mcbridge"
version = "0.1.0"
edition = "2021"
publish = false

[dependencies]
serde_json = "1"
base64 = "0.22"
tokio = { version = "1", features = ["rt", "net", "io-util", "time", "sync", "signal", "macros"] }
tokio-util = { version = "0.7", features = ["rt"] }
