[package]
name = "appenders"
version = "0.1.0"
edition = "2021"
publish = false

[dependencies]
parquet = { version = "=60.0.0", default-features = false }

[dev-dependencies]
bytes = "=1.12.1"
