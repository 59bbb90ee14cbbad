[package]
name = "taiko_rs"
version = "0.1.0"
edition = "2021"
publish = false

[dependencies]
bevy = { version = "0.7", default-features = false, features = ["render", "bevy_winit", "png", "x11"] }
