[package]
name = "rust_ndi_viewer"
version = "0.1.0"
edition = "2021"
publish = false

[dependencies]
anyhow = "=1.0.104"
arc-swap = "=1.9.3"
eframe = { version = "=0.31.1", default-features = false, features = ["default_fonts", "glow", "x11"] }
grafton-ndi = "=0.10.0"
pollster = "=0.4.0"
tokio = { version = "=1.54.1", features = ["rt-multi-thread", "macros"] }
wgpu = { version = "=24.0.5", default-features = false, features = ["wgsl"] }
