[package]
name = "soundscape"
version = "0.1.0"
edition = "2021"
publish = false

[dependencies]
rand = "0.8"
serde = { version = "1", features = ["derive"] }
serde_json = "1"
rmp-serde = "1"
clap = { version = "4", features = ["derive"] }
log = "0.4"
env_logger = "0.10"
rodio = "0.17"
tether-agent = "*"
