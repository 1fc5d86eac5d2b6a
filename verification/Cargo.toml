[package]
name = "openwilly"
version = "0.1.0"
edition = "2021"
publish = false

[dependencies]
rand = "0.8"
serde = { version = "1", features = ["derive"] }
serde_json = "1"
anyhow = "1"
iso9660 = "*"
tracing = "0.1"
tracing-subscriber = { version = "0.3", features = ["env-filter"] }
