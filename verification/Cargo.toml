[package]
name = "transaction_processor"
version = "0.1.0"
edition = "2021"
publish = false

[dependencies]
ahash = "=0.8.12"
anyhow = "=1.0.104"
csv-async = { version = "=1.3.1", features = ["tokio"] }
futures = "=0.3.34"
num_cpus = "=1.17.0"
rust_decimal = "=1.43.0"
serde = { version = "=1.0.229", features = ["derive"] }
tokio = { version = "=1.54.1", features = ["fs", "io-std", "io-util", "macros", "rt", "sync"] }
