[package]
name = "nerf"
version = "0.1.0"
edition = "2021"
publish = false

[dependencies]
serde_json = "*"
shellexpand = "*"
reqwest = { version = "*", default-features = false, features = ["blocking", "json", "rustls-tls"] }
clap = { version = "*", features = ["derive"] }
env_logger = "*"
log = "*"
eyre = "*"
