[package]
name = "stream_core"
version = "0.1.0"
edition = "2021"
publish = false

[dependencies]
postgres-types = "0.2"
anyhow = "1"
bytes = "1"
serde_json = "1"
tokio = { version = "1", features = ["rt", "time", "macros"] }
