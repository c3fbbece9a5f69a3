[package]
name = "actor_game"
version = "0.1.0"
edition = "2021"
publish = false

[dependencies]
rand = "0.8"
winit = "0.28"
wgpu = "0.17"
pollster = "0.3"
image = { version = "0.24", default-features = false, features = ["png"] }
