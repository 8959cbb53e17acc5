[package]
name = "chip8"
version = "0.1.0"
edition = "2021"
publish = false

[dependencies]
chip8_base = "*"
clap = { version = "3.2", features = ["derive"] }
env_logger = "*"
log = "0.4"
rand = "0.8"
