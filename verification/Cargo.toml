[package]
name = "raycaster"
version = "0.1.0"
edition = "2021"
publish = false

[dependencies]
glob = "*"
image = { version = "*", default-features = false, features = ["png"] }
sdl2 = "*"
serde = { version = "*", features = ["derive"] }
serde_json = "*"
