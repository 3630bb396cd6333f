[package]
name = "osm_renderer"
version = "0.1.0"
edition = "2021"
publish = false

[dependencies]
image = { version = "=0.24.9", default-features = false, features = ["png"] }
line_drawing = "=1.0.1"
log = "=0.4.34"
flexi_logger = "=0.31.10"
osmpbf = "=0.3.8"
pest = "=2.9.4"
pest_derive = "=2.9.4"
piston = "*"
piston_window = "*"
piston2d-graphics = "*"
piston2d-opengl_graphics = "*"
