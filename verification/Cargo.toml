[package]
name = "chip8"
version = "0.1.0"
edition = "2021"
publish = false

[dependencies]
rand = "0.8"
chrono = "*"
clap = { version = "*", features = ["derive"] }
cpal = "*"
fern = { version = "*", features = ["colored"] }
log = "*"
pixels = "*"
serde = { version = "*", features = ["derive"] }
serde_json = "*"
tao = { version = "*", features = ["serde"] }
