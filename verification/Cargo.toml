[package]
name = "rust_riff"
version = "0.1.0"
edition = "2021"
publish = false

[dependencies]
colors-transform = "0.2"
css-color-parser = "0.1"
eframe = { version = "0.22", default-features = false, features = ["glow", "default_fonts"] }
egui_extras = { version = "0.22", features = ["image"] }
image = { version = "0.24", default-features = false, features = ["png"] }
skia-safe = "*"
