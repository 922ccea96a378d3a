[package]
name = "profile_store"
version = "0.1.0"
edition = "2021"
publish = false

[dependencies]
chrono = "0.4"

[dev-dependencies]
serde_json = "1"
