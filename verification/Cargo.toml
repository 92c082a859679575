[package]
name = "specula"
version = "0.1.0"
edition = "2021"
publish = false

[dependencies]
unicode-width = "0.2"
vte = "0.15"
portable-pty = "0.9"
winit = "0.30"
wgpu = "*"
fontdue = "0.9"
fontdb = "*"
arboard = { version = "3", default-features = false }
image = { version = "0.25", default-features = false, features = ["png"] }
pollster = "0.4"
serde = { version = "1", features = ["derive"] }
toml = "*"
dirs = "*"
log = "0.4"
simplelog = "0.12"
anyhow = "1"
bytemuck = { version = "1", features = ["derive"] }
