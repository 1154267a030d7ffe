[package]
name = "rtxel"
version = "0.1.0"
edition = "2021"
publish = false

[dependencies]
env_logger = "0.11"
glam = "0.30"
log = "0.4"
noise = "0.9"
rayon = "1"
winit = "0.30"
