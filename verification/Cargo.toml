[package]
name = "maestro"
version = "0.1.0"
edition = "2021"
publish = false

[dependencies]
env_logger = "*"
libc = "0.2"
log = "0.4"
serde = { version = "1", features = ["derive"] }
serde_yaml = "0.9"
signal-hook = "0.3"
ureq = "2"
