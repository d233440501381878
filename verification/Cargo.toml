[package]
name = "open_ams"
version = "0.1.0"
edition = "2021"
publish = false

[dependencies]
uuid = { version = "1", features = ["v4"] }
serde = { version = "1", features = ["derive"] }
serde_yaml = "0.9"
walkdir = "2"
rust-embed = "8"
clap = { version = "4", features = ["derive"] }
colored = "2"
