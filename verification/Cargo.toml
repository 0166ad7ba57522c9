[package]
name = "chip8"
version = "0.1.0"
edition = "2021"
publish = false

[dependencies]
rand = "0.8"
winit = "0.28"
pixels = "0.12"
log = "0.4"
env_logger = "0.10"
