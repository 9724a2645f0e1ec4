[package]
name = "netpod"
version = "0.1.0"
edition = "2021"
publish = false

[dependencies]
bendy = { version = "0.3", features = ["std"] }
thiserror = "1"
tokio = { version = "1", features = ["net", "io-util", "rt"] }
