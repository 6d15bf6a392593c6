[package]
name = "minitext"
version = "0.1.0"
edition = "2021"
publish = false

[dependencies]
bytemuck = { version = "1", features = ["derive"] }
pollster = "0.2"
wgpu = "0.13"
wgpu_glyph = "0.17"
winit = { version = "0.26", default-features = false, features = ["x11"] }
