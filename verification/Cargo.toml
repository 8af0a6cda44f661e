[package]
name = "infinite_db_step"
version = "0.1.0"
edition = "2021"
publish = false

[dependencies]
anyhow = "1"
bincode = { version = "2", features = ["serde"] }
env_logger = "0.11"
infinite-db = "0.1"
log = "0.4"
serde = { version = "1", features = ["derive"] }
serde_json = "1"
