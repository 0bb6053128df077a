[package]
name = "fetch_cache"
version = "0.1.0"
edition = "2021"
publish = false

[dependencies]
reqwest = { version = "0.11", default-features = false, features = ["json"] }
tokio = { version = "1", default-features = false, features = ["rt-multi-thread"] }
serde_json = "1"
