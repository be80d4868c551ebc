[package]
name = "ray_tracing"
version = "0.1.0"
edition = "2021"
publish = false

[dependencies]
glam = "*"
rand = "0.8"
rayon = "1"
sdl2 = "*"
image = { version = "0.25", default-features = false, features = ["png", "jpeg"] }
