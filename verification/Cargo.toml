[package]
name = "hectic"
version = "0.1.0"
edition = "2021"
publish = false

[dependencies]
rand = "=0.7.3"
winit = "0.23"
wgpu = "0.6"
wgpu_glyph = "0.10"
image = { version = "0.23", default-features = false, features = ["png"] }
zerocopy = "0.3"
futures = "0.3"
line_drawing = "0.8"
palette = "0.5"
toml = "0.5"
serde = { version = "1", features = ["derive"] }
log = "0.4"
env_logger = "0.8"
