[package]
name = "ticker_bot"
version = "0.1.0"
edition = "2021"
publish = false

[dependencies]
anyhow = "1"
cosmos-grpc-client = "*"
env_logger = "0.11"
log = "0.4"
orion = "0.17"
reqwest = { version = "0.12", default-features = false, features = ["blocking", "json"] }
serde = { version = "1", features = ["derive"] }
serde_json = "1"
tokio = { version = "1", features = ["macros", "rt-multi-thread"] }
toml = "0.8"
