[package]
name = "zero"
version = "0.1.0"
edition = "2021"
publish = false

[dependencies]
wgpu = { version = "=0.19.4", default-features = false, features = ["wgsl"] }
cgmath = "=0.18.0"
bytemuck = { version = "1", features = ["derive"] }
image = { version = "=0.24.9", default-features = false, features = ["png", "jpeg"] }
tobj = { version = "=3.2.5", default-features = false }
hexasphere = "=10.0.0"
egui = { version = "=0.26.2", default-features = false }
log = "0.4"
env_logger = { version = "=0.10.2", default-features = false }
anyhow = "1"
pollster = "=0.3.0"
