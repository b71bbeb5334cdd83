[package]
name = "bmkg_edge"
version = "0.1.0"
edition = "2021"
publish = false

[dependencies]
quick-xml = "0.42"
serde = { version = "1", features = ["derive"] }
serde_json = "1"
worker = { version = "*", features = ["d1"] }
