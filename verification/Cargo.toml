[package]
name = "ephc"
version = "0.1.0"
edition = "2021"
publish = false

[dependencies]
serde_yaml = "*"
tokio = { version = "1", features = ["rt-multi-thread", "macros", "time", "net", "sync"] }
reqwest = { version = "*", default-features = false }
clap = "2"
log = "*"
env_logger = "*"
