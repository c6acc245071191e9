[package]
name = "carapace"
version = "0.1.0"
edition = "2021"
publish = false

[dependencies]
image = { version = "0.25", default-features = false, features = ["png", "jpeg", "gif", "bmp"] }
naga = { version = "*", features = ["wgsl-in"] }
toml = "*"
serde = { version = "1", features = ["derive"] }
mlua = { version = "*", features = ["lua54", "vendored"] }
wgpu = "*"
vello = "*"
parley = "*"
pollster = "*"
tiny-skia = "*"
lyon = "*"
bytemuck = { version = "1", features = ["derive"] }
winit = "*"
softbuffer = "*"
