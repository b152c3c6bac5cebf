[package]
name = "lightgrid"
version = "0.1.0"
edition = "2021"
publish = false

[dependencies]
geo = "*"
geo-visibility = "*"
image = "*"
piston_window = "*"
piston2d-opengl_graphics = "*"
pistoncore-sdl2_window = "*"
