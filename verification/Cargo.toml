[package]
name = "wiw"
version = "0.1.0"
edition = "2021"
publish = false

[dependencies]
rand = "0.8"
wgpu = "22"
winit = "0.30"
glam = "0.29"
bytemuck = { version = "1", features = ["derive"] }
pollster = "0.3"
env_logger = "0.11"
