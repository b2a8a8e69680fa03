[package]
name = "csg"
version = "0.1.0"
edition = "2021"
publish = false

[dependencies]
slotmap = "1"
wgpu = "*"
glfw = "*"
image = { version = "*", default-features = false, features = ["png"] }
nalgebra = "*"
pollster = "*"
raw-window-handle = "0.6"
serde = { version = "1", features = ["derive"] }
serde_json = "1"
bytemuck = { version = "1", features = ["derive"] }
strum = { version = "*", features = ["derive"] }
thiserror = "*"
tracing = "0.1"
tracing-subscriber = { version = "0.3", features = ["env-filter"] }
