[package]
name = "workflow_engine"
version = "0.1.0"
edition = "2021"
publish = false

[dependencies]
flate2 = "1"
ring = "0.17"
serde = { version = "1", features = ["derive"] }
serde_json = { version = "1", features = ["arbitrary_precision"] }
tokio = { version = "1", features = ["io-util", "macros", "net", "process", "rt", "sync", "time"] }
tempfile = "3"
rustix = { version = "1", features = ["fs", "process"] }
libc = "0.2"
