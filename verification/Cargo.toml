[package]
name = "goose_etl"
version = "0.1.0"
edition = "2021"
publish = false

[dependencies]
csv = "*"
rusqlite = { version = "*", features = ["bundled"] }
reqwest = { version = "*", default-features = false, features = ["rustls-tls", "stream"] }
tokio = { version = "*", features = ["macros", "rt-multi-thread"] }
futures-util = "*"
