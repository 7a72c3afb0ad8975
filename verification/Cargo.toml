[package]
name = "cf_ddns"
version = "0.1.0"
edition = "2021"
publish = false

[dependencies]
serde_json = "1"
reqwest = { version = "0.12", features = ["blocking", "json"] }
dotenv = "0.15"
env_logger = "0.11"
log = "0.4"
