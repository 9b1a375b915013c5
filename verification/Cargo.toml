[package]
name = "wgpu-3d-viewer"
version = "0.1.0"
edition = "2021"
publish = false

[dependencies]
anyhow = "1"
ash = "0.37"
bytemuck = { version = "1", features = ["derive"] }
env_logger = { version = "0.10", default-features = false }
glam = "0.29"
gltf = "1"
image = { version = "0.24", default-features = false, features = ["png"] }
log = "0.4"
openxr = { version = "0.18", features = ["linked"] }
pollster = "0.3"
wgpu = { version = "22", default-features = false, features = ["wgsl"] }
