[package]
name = "bybit_feed"
version = "0.1.0"
edition = "2021"
publish = false

[dependencies]
anyhow = "*"
clickhouse = { version = "*", features = ["time", "inserter"] }
futures-util = "*"
hex = "*"
ring = "*"
rustls = { version = "*", features = ["ring"] }
serde = { version = "*", features = ["derive"] }
serde_json = "*"
time = { version = "*", features = ["parsing"] }
tokio = { version = "*", features = ["rt", "macros", "sync", "time", "net", "io-util"] }
tokio-tungstenite = { version = "*", features = ["rustls-tls-webpki-roots"] }
tracing = "*"
