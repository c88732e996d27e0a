[package]
name = "purpleair_exporter"
version = "0.1.0"
edition = "2021"
publish = false

[dependencies]
serde = { version = "1", features = ["derive"] }
serde_json = "1"
prometheus = "0.13"
log = "0.4"
env_logger = "*"
lazy_static = "1"
tokio = { version = "1", features = ["macros", "rt-multi-thread", "net"] }
axum = "*"
reqwest = { version = "*", default-features = false }
http = "*"
