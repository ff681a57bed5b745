[package]
name = "shapes"
version = "0.1.0"
edition = "2021"
publish = false

[dependencies]
eframe = { version = "0.31", default-features = false, features = ["glow", "default_fonts", "x11"] }
egui = { version = "0.31", default-features = false, features = ["default_fonts"] }
