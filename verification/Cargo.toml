[package]
name = "share_map"
version = "0.1.0"
edition = "2021"
publish = false

[dependencies]
arc-swap = "*"
serde = { version = "*", features = ["derive"] }
serde_json = "*"
thiserror = "*"
