[package]
name = "jaankaup_core"
version = "0.1.0"
edition = "2021"
publish = false

[dependencies]
wgpu = "=0.9.0"
winit = "=0.25.0"
bytemuck = { version = "=1.25.2", features = ["derive"] }
cgmath = "=0.18.0"
rand = "=0.8.8"
futures = "=0.3.34"
log = "=0.4.35"
png = "0.16"
