[package]
name = "rigorstarter_rust_tauri_webgpu"
version = "0.1.0"
edition = "2021"
publish = false

[dependencies]
rand = "0.8"
winit = "0.30"
wgpu = "24"
pollster = "0.4"
env_logger = "0.11"
bytemuck = { version = "1", features = ["derive"] }
