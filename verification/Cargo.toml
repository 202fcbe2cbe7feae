[package]
name = "swaggy"
version = "0.1.0"
edition = "2021"
publish = false

[dependencies]
axum = "0.8"
clap = { version = "4", features = ["derive"] }
env_logger = "0.11"
indexmap = { version = "2", features = ["serde"] }
log = "0.4"
openapiv3 = "2"
serde = { version = "1", features = ["derive"] }
serde_json = "1"
thiserror = "2"
tokio = { version = "1", features = ["full"] }
z85 = "3"
