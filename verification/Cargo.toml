[package]
name = "tickflow"
version = "0.1.0"
edition = "2021"
publish = false

[dependencies]
chrono = { version = "0.4", default-features = false, features = ["std"] }
chrono-tz = "0.10"
serde = { version = "1", features = ["derive"] }
serde_json = "1"
reqwest = { version = "0.12", default-features = false, features = ["json", "rustls-tls", "gzip", "deflate"] }
tokio = { version = "1", features = ["sync", "macros", "rt-multi-thread"] }
futures = "0.3"
url = "2"
thiserror = "2"
polars = { version = "*", default-features = false }
