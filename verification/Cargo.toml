[package]
name = "game_engine"
version = "0.1.0"
edition = "2021"
publish = false

[dependencies]
image = { version = "*", default-features = false, features = ["png"] }
wgpu = "*"
winit = "*"
glam = "*"
bytemuck = { version = "*", features = ["derive"] }
pollster = "*"
env_logger = "*"
