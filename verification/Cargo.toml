[package]
name = "flycam"
version = "0.1.0"
edition = "2021"
publish = false

[dependencies]
gl = "*"
image = "*"
nalgebra-glm = "*"
sdl2 = "*"
