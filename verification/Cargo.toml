[package]
name = "prolog_service"
version = "0.1.0"
edition = "2021"
publish = false

[dependencies]
scryer-prolog = { version = "=0.9.4", default-features = false, features = ["hostname"] }
serde_json = "=1.0.154"
tokio = { version = "=1.54.1", features = ["sync", "rt", "rt-multi-thread", "macros"] }
anyhow = "=1.0.104"
clap = { version = "=4.6.7", features = ["derive"] }
rustyline = "=10.1.1"
ad4m-client = "=0.10.0"
log = "=0.4.34"
env_logger = "=0.10.2"
lazy_static = "=1.5.1"
