[package]
name = "waku"
version = "0.1.0"
edition = "2021"
publish = false

[dev-dependencies]
uuid = { version = "1", features = ["v4"] }
