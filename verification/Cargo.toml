[package]
name = "secinfra"
version = "0.1.0"
edition = "2021"
publish = false

[dependencies]
anyhow = "1"
arrow-array = { version = "=55.2.0", default-features = false }
arrow-data = { version = "=55.2.0", default-features = false }
arrow-schema = { version = "=55.2.0", default-features = false }
async-stream = "0.3"
bytes = "1"
chrono = "=0.4.45"
csv = "=1.4.0"
futures = "0.3"
indexmap = "=2.14.2"
parquet = { version = "=55.2.0", default-features = false, features = ["arrow", "snap"] }
quick-xml = "=0.31.0"
reqwest = { version = "=0.12.28", default-features = false, features = ["rustls-tls"] }
serde_json = "=1.0.154"
tokio = { version = "1", features = ["rt", "time"] }
tracing = "0.1"
zip = { version = "=2.6.1", default-features = false, features = ["deflate"] }
zstd = "=0.13.4"
