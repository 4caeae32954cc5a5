[package]
name = "instance_store"
version = "0.1.0"
edition = "2021"
publish = false

[dependencies]
slab = "*"
bytemuck = { version = "*", features = ["derive"] }
cgmath = "*"
futures = "*"
rand = "*"
wgpu = "*"
winit = "*"
