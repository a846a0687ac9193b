[package]
name = "image_kernel"
version = "0.1.0"
edition = "2021"
publish = false

[dependencies]
image = { version = "=0.25.10", default-features = false, features = ["png", "jpeg", "gif", "bmp", "tiff", "webp"] }
raster = "=0.2.0"
rayon = "=1.12.0"
