[package]
name = "dithering"
version = "0.1.0"
edition = "2021"
publish = false

[dependencies]
image = { version = "0.25", default-features = false, features = ["png", "jpeg", "webp"] }
arboard = "3"
thiserror = "2"
eframe = { version = "0.35", default-features = false, features = ["accesskit", "default_fonts", "glow", "x11"] }
rfd = "0.15"
