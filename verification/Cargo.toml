[package]
name = "chip8"
version = "0.1.0"
edition = "2021"
publish = false

[dependencies]
rand = "0.7"
rodio = { version = "0.11", default-features = false }
glium = "0.27"
