[package]
name = "lc_bench"
version = "0.1.0"
edition = "2021"
publish = false

[dependencies]
aws-config = "=1.13.0"
aws-sdk-dynamodb = "=1.136.0"
aws-sdk-s3 = "=1.157.0"
futures = "=0.3.34"
libc = "=0.2.191"
serde = { version = "=1.0.229", features = ["derive"] }
serde_json = "=1.0.154"
tarpc = { version = "=0.38.0", features = ["serde-transport", "serde-transport-json", "tcp", "tokio1"] }
tokio = { version = "=1.54.1", features = ["fs", "macros", "net", "rt-multi-thread", "sync", "time"] }
toml = "=1.1.8"
