[package]
name = "yolo26_pose"
version = "0.1.0"
edition = "2021"
publish = false

[dependencies]
fast_image_resize = "=5.5.0"
anyhow = "=1.0.104"
clap = { version = "=4.6.7", features = ["derive"] }
image = { version = "=0.25.10", default-features = false, features = ["jpeg", "png"] }
bytemuck = { version = "=1.25.2", features = ["derive"] }
pollster = "=0.4.0"
wgpu = "=24.0.5"
tensorrt-infer = "=0.1.0"
ort = { version = "=2.0.0-rc.10", default-features = false, features = ["std"] }
