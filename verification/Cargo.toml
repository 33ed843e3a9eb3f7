[package]
name = "eipscanne-rs"
version = "0.1.0"
edition = "2021"
publish = false

[dependencies]
bilge = "*"
binrw = "*"
tokio = { version = "1", features = ["io-util", "macros", "net", "rt-multi-thread"] }
