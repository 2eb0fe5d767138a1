[package]
name = "snagg"
version = "0.1.0"
edition = "2021"
publish = false

[dependencies]
gltf = { version = "1.4.1", default-features = false, features = ["names"] }
pollster = "0.3.0"
log = "0.4.34"
env_logger = "0.11.11"
