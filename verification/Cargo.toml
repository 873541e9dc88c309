[package]
name = "aseqmatrix"
version = "0.1.0"
edition = "2021"
publish = false

[dependencies]
alsa = "*"
dirs = "*"
sdl2 = { version = "*", features = ["image"] }
serde = { version = "1", features = ["derive"] }
serde_derive = "1"
toml = "0.5"
