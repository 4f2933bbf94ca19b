[package]
name = "raycity"
version = "0.1.0"
edition = "2021"
publish = false

[dependencies]
rayon = "*"
sdl2 = "*"
wavefront_obj = "*"
