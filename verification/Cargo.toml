[package]
name = "correlation_bridge"
version = "0.1.0"
edition = "2021"
publish = false

[dependencies]
tokio = { version = "1", features = ["sync", "rt-multi-thread", "macros"] }
hyper = { version = "0.14", features = ["server", "http1", "tcp"] }

[dev-dependencies]
serde_json = "1"
