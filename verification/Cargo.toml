[package]
name = "serde_arrow"
version = "0.1.0"
edition = "2021"
publish = false

[dependencies]
serde = "1"
chrono = { version = "0.4", default-features = false, features = ["std"] }
arrow-schema = "*"
