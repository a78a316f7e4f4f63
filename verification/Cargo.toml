[package]
name = "graphed"
version = "0.1.0"
edition = "2021"
publish = false

[dependencies]
rand = "0.8"
rodio = { version = "0.17", default-features = false }
sdl2 = { version = "0.35", features = ["ttf"] }
