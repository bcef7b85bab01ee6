[package]
name = "h3"
version = "0.1.0"
edition = "2021"
publish = false

[dependencies]
bytes = "1"
fastrand = "2"
futures-util = { version = "0.3", default-features = false }
