[package]
name = "kyoto"
version = "0.1.0"
edition = "2021"
publish = false

[dependencies]
bitcoin = "0.32"
tokio = { version = "1", features = ["sync", "rt-multi-thread", "macros", "time"] }
tracing = "0.1"
tracing-subscriber = "0.3"
