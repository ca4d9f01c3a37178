[package]
name = "guacamole"
version = "0.1.0"
edition = "2021"
publish = false

[dependencies]
async-trait = "0.1"
futures = "0.3"
tokio = { version = "1", features = ["sync"] }
tracing = "0.1"
tracing-futures = "0.2"
tracing-subscriber = "0.3"
