[package]
name = "typst_collab"
version = "0.1.0"
edition = "2021"
publish = false

[dependencies]
operational-transform = { version = "=0.6.1", features = ["serde"] }
serde = { version = "=1.0.229", features = ["derive"] }
serde_json = "=1.0.154"
tokio = { version = "=1.54.1", features = ["full"] }
warp = "=0.3.7"
futures-util = "=0.3.34"
tokio-stream = "=0.1.19"
redis = { version = "=1.8.1", features = ["tokio-comp", "connection-manager"] }
minio = "=0.2.0"
dotenvy = "=0.15.7"
pretty_env_logger = "=0.5.0"
