[package]
name = "e2k"
version = "0.3.0"
edition = "2021"
publish = false

[dependencies]
fixed = "*"
cordic = "*"
clap = { version = "*", features = ["derive"] }
rayon = "*"
log = "*"
env_logger = "*"
serde_json = "*"
