[package]
name = "sat_passes"
version = "0.1.0"
edition = "2021"
publish = false

[dependencies]
actix-cors = "*"
actix-rt = "*"
actix-web = "*"
chrono = { version = "*", features = ["serde"] }
env_logger = "*"
log = "*"
reqwest = "*"
roots = "*"
satellite = "*"
serde = { version = "*", features = ["derive"] }
serde_json = "*"
thiserror = "*"
tokio = { version = "*", features = ["fs", "io-util", "time"] }
validator = { version = "*", features = ["derive"] }
