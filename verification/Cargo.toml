[package]
name = "trust_80"
version = "0.1.0"
edition = "2021"
publish = false

[dependencies]
zilog_z80 = "=1.1.4"
egui = "=0.37.0"
sdl2 = { version = "=0.38.0", features = ["ttf"] }
image = { version = "=0.25.10", default-features = false, features = ["png"] }
toml = "=1.1.8"
serde = { version = "=1.0.229", features = ["derive"] }
serde_derive = "=1.0.229"
directories = "=6.0.0"
