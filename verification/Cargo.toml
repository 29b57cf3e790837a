[package]
name = "tetris"
version = "0.1.0"
edition = "2021"
publish = false

[dependencies]
rand = "0.4"
piston_window = "*"
piston2d-graphics = "*"
piston-gfx_texture = "*"
gfx_device_gl = "*"
