[package]
name = "glyph_world"
version = "0.1.0"
edition = "2021"
publish = false

[dependencies]
glium = "0.30"
rusttype = { version = "0.9", features = ["gpu_cache"] }
