[package]
name = "chip8"
version = "0.1.0"
edition = "2021"
publish = false

[dependencies]
rand = "=0.8.8"
sdl2 = { version = "=0.35.2", default-features = false }
eframe = { version = "=0.22.0", default-features = false, features = ["glow"] }
egui = { version = "=0.22.0", default-features = false }
