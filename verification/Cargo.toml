[package]
name = "auto_jumpking"
version = "0.1.0"
edition = "2021"
publish = false

[dependencies]
log = "=0.4.34"
env_logger = "=0.11.11"
winapi = { version = "=0.3.9", features = ["winuser"] }

[dev-dependencies]
regex = "=1.13.1"
