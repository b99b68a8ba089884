[package]
name = "terrain_mesh"
version = "0.1.0"
edition = "2021"
publish = false

[dependencies]
image = { version = "=0.23.14", default-features = false, features = ["png"] }
kiss3d = "=0.35.0"
nalgebra = "=0.30.1"
