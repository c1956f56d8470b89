[package]
name = "activity_metrics"
version = "0.1.0"
edition = "2021"
publish = false

[dependencies]
tokio = { version = "*", features = ["rt-multi-thread", "macros", "time"] }
reqwest = { version = "*", default-features = false }
device_query = "*"
atomic_float = "*"

[dev-dependencies]
serde_json = "*"
