[package]
name = "vectorcade_render"
version = "0.1.0"
edition = "2021"
publish = false

[dependencies]
wgpu = "24"
bytemuck = { version = "1", features = ["derive"] }
