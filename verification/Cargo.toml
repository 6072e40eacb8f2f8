[package]
name = "stress-test"
version = "0.1.0"
edition = "2021"
publish = false

[dependencies]
anyhow = "1"
clap = { version = "4", features = ["derive"] }
env_logger = "0.11"
futures = "0.3"
humantime = "2"
nix = { version = "0.29", features = ["process"] }
tokio = { version = "1", features = ["full"] }
