[package]
name = "ipinfo"
version = "0.1.0"
edition = "2021"
publish = false

[dependencies]
lru = "*"
serde_json = "1"
reqwest = { version = "*", features = ["blocking", "json"] }
include_dir = "*"
