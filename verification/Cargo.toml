[package]
name = "rust_scrapper"
version = "0.1.0"
edition = "2021"
publish = false

[dependencies]
url = "2"
rand = "0.9"
urlencoding = "2"
chrono = { version = "0.4", features = ["serde"] }
serde = { version = "1", features = ["derive"] }
serde_json = "1"
reqwest = { version = "0.12", default-features = false, features = ["gzip", "cookies"] }
tokio = { version = "1", features = ["macros", "rt-multi-thread"] }
