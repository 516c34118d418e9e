[package]
name = "russh_sftp"
version = "0.1.0"
edition = "2021"
publish = false

[dependencies]
bytes = "=1.12.1"
tokio = { version = "=1.54.1", features = ["io-util", "rt", "sync", "macros"] }
tokio-util = "0.7"
chrono = { version = "=0.4.45", default-features = false, features = ["std", "clock"] }
