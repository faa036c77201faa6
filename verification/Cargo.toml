[package]
name = "yac"
version = "0.1.0"
edition = "2021"
publish = false

[dependencies]
async-trait = "=0.1.92"
futures = "=0.3.34"
hyperid = "=2.3.1"
jsonwebtoken = "=9.3.1"
log = "=0.4.35"
pretty_env_logger = "=0.5.0"
redis = "=0.23.5"
serde = { version = "=1.0.229", features = ["derive"] }
serde_json = { version = "=1.0.154", features = ["preserve_order"] }
tokio = { version = "=1.54.1", features = ["full"] }
warp = "=0.3.7"
