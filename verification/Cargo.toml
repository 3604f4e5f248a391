[package]
name = "tensor_ash"
version = "0.1.0"
edition = "2021"
publish = false

[dependencies]
anyhow = "1"
ash = "0.38"
bytemuck = { version = "1", features = ["derive"] }
env_logger = "0.11"
log = "0.4"
parking_lot = "0.12"
scopeguard = "1"
