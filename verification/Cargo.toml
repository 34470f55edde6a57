[package]
name = "m3u_filter"
version = "0.1.0"
edition = "2021"
publish = false

[dependencies]
regex = "*"
chrono = "*"
serde = { version = "*", features = ["derive"] }
serde_json = "*"
log = "*"
env_logger = "*"
clap = { version = "*", features = ["derive"] }
actix-web = { version = "*", default-features = false }
reqwest = { version = "*", default-features = false, features = ["stream"] }
path-absolutize = "*"
