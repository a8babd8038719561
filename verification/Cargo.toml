[package]
name = "brumous"
version = "0.1.0"
edition = "2021"
publish = false

[dependencies]
bytemuck = { version = "=1.25.2", features = ["derive"] }
cgmath = "=0.18.0"
image = { version = "=0.24.9", default-features = false, features = ["jpeg", "png"] }
imgui = "=0.8.2"
imgui-wgpu = "=0.20.0"
imgui-winit-support = { version = "=0.8.2", default-features = false, features = ["winit-26"] }
pollster = "=0.2.5"
wgpu = "=0.13.1"
winit = "=0.26.1"
