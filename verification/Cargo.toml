[package]
name = "smooth_terminal"
version = "0.1.0"
edition = "2021"
publish = false

[dependencies]
vte = "=0.15.0"
unicode-width = "=0.2.2"
anyhow = "=1.0.104"
log = "=0.4.34"
env_logger = "=0.11.11"
crossbeam-channel = "=0.5.17"
serde = { version = "=1.0.229", features = ["derive"] }
toml = "=1.1.8"
dirs = "=7.0.0"
notify = "=8.2.1"
portable-pty = "=0.9.0"
winit = "*"
wgpu = "*"
glyphon = "*"
pollster = "*"
bytemuck = { version = "*", features = ["derive"] }
image = { version = "*", default-features = false, features = ["png", "jpeg"] }
