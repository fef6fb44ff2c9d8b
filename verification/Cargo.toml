[package]
name = "rust_opengl_learn"
version = "0.1.0"
edition = "2021"
publish = false

[dependencies]
rand = "0.8"
image = { version = "0.24", default-features = false, features = ["png", "jpeg"] }
cgmath = "0.18"
obj = "0.10"
futures = "0.3"
once_cell = "1"
ouroboros = "0.15"
num-traits = "0.2"
