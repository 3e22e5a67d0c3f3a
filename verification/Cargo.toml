[package]
name = "chudguild"
version = "0.1.0"
edition = "2021"
publish = false

[dependencies]
rand = "=0.8.8"
serde = { version = "=1.0.229", features = ["derive"] }
serde_yaml = "=0.9.34"
serde_json = "=1.0.154"
anyhow = "=1.0.104"
chrono = { version = "0.4", default-features = false, features = ["std"] }
