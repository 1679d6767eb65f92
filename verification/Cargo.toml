[package]
name = "drive_pi"
version = "0.1.0"
edition = "2021"
publish = false

[dependencies]
rand = "0.8"
actix-web = "4"
actix-cors = "0.7"
tokio = { version = "1", features = ["sync"] }
serde = { version = "1", features = ["derive"] }
serde_json = "1"
serde_with = "3"
futures = "0.3"
log = "0.4"
env_logger = "0.11"
dotenv = "0.15"
