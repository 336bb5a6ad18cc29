[package]
name = "glyph_mesh"
version = "0.1.0"
edition = "2021"
publish = false

[dependencies]
bytemuck = { version = "=1.25.2", features = ["derive"] }
earcutr = "=0.4.3"
harfbuzz = { version = "=0.6.0", default-features = false, features = ["bundled"] }
image = { version = "=0.24.9", default-features = false, features = ["png"] }
log = "=0.4.34"
pollster = "=0.3.0"
simple_logger = { version = "=4.3.3", default-features = false }
ttf-parser = "=0.20.0"
wgpu = { version = "=0.19.4", default-features = false, features = ["wgsl"] }
