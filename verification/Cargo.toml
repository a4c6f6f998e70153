[package]
name = "oracle-backend"
version = "0.1.0"
edition = "2021"
publish = false

[dependencies]
async-trait = "0.1.92"
base64 = "0.22.1"
cel-interpreter = { version = "0.10.0", features = ["json"] }
chrono = "0.4.45"
deadpool = "0.12.3"
oracle = "0.6.3"
serde = { version = "1", features = ["derive"] }
serde_json = { version = "1", features = ["preserve_order", "float_roundtrip"] }
tokio = { version = "1", features = ["rt", "rt-multi-thread", "sync", "time", "macros"] }
tracing = "0.1.44"
