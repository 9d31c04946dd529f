[package]
name = "quant_rs"
version = "0.1.0"
edition = "2021"
publish = false

[dependencies]
rand = "0.8"
uuid = { version = "1", features = ["v4"] }
chrono = "0.4"
dashmap = "6"
serde = { version = "1", features = ["derive"] }
serde_json = "1"
