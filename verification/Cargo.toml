[package]
name = "pitch_to_key"
version = "0.1.0"
edition = "2021"
publish = false

[dependencies]
cpal = "*"
enigo = "*"
env_logger = "*"
log = "*"
pitch-detection = "*"
