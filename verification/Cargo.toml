[package]
name = "kv_facade"
version = "0.1.0"
edition = "2021"
publish = false

[dependencies]
color-eyre = "*"
poem = "*"
poem-openapi = "*"
redis = { version = "*", features = ["tokio-comp"] }
tokio = { version = "*", features = ["macros", "rt-multi-thread", "time"] }
tracing = "*"
tracing-subscriber = "*"
