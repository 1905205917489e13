[package]
name = "podium_audio"
version = "0.1.0"
edition = "2021"
publish = false

[dependencies]
ureq = "2"
symphonia = "0.5"
cpal = "*"
parking_lot = "*"
feed-rs = "*"
log = "*"
env_logger = "*"
once_cell = "*"
serde = { version = "1", features = ["derive"] }
serde_json = "1"
