[package]
name = "symbiont_bus"
version = "0.1.0"
edition = "2021"
publish = false

[dependencies]
uuid = { version = "1", features = ["v4"] }
rand = "0.8"
async-nats = "*"
tokio = { version = "1", features = ["full"] }
futures = "0.3"
