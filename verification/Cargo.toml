[package]
name = "raytracer"
version = "0.1.0"
edition = "2021"
publish = false

[dependencies]
anyhow = "1"
cgmath = "0.18"
image = { version = "0.24", default-features = false, features = ["png"] }
itertools = "0.12"
rand = "0.8"
