[package]
name = "strangers"
version = "0.1.0"
edition = "2021"
publish = false

[dependencies]
bcrypt = "*"
chrono = "*"
csv = "*"
dateparser = "*"
encoding_rs = "*"
rand = "*"
tokio = { version = "*", features = ["sync", "rt-multi-thread", "time", "macros"] }
uuid = { version = "*", features = ["v4"] }
