[package]
name = "kiter"
version = "0.1.0"
edition = "2021"
publish = false

[dependencies]
bytemuck = { version = "*", features = ["derive"] }
eframe = { version = "*", default-features = false, features = ["default_fonts", "wgpu", "x11"] }
glam = { version = "*", features = ["serde"] }
noise = "*"
parry3d-f64 = "*"
rapier3d-f64 = "*"
rayon = "*"
serde = { version = "*", features = ["derive"] }
toml = "*"
