[package]
name = "lithia_powder"
version = "0.1.0"
edition = "2021"
publish = false

[dependencies]
bytemuck = { version = "*", features = ["derive"] }
glam = { version = "*", features = ["bytemuck"] }
sdl3 = "*"
shaderc = "*"
