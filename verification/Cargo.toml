[package]
name = "atmb_crawl"
version = "0.1.0"
edition = "2021"
publish = false

[dependencies]
regex = "1"
scraper = "*"
backoff = { version = "0.4", features = ["tokio"] }
color-eyre = "0.6"
csv = "1"
futures = "0.3"
log = "0.4"
reqwest = { version = "0.12", default-features = false, features = ["rustls-tls"] }
serde = { version = "1", features = ["derive"] }
smarty-rust-sdk = "*"
tokio = { version = "1", features = ["macros", "rt-multi-thread"] }
tracing-error = "0.2"
tracing-subscriber = { version = "0.3", features = ["env-filter"] }
