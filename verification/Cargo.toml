[package]
name = "poly_battle"
version = "0.1.0"
edition = "2021"
publish = false

[dependencies]
rand = "0.8"
serde = { version = "1", features = ["derive"] }
serde_json = "1"
image = "0.24"
sdl2 = "0.35"
