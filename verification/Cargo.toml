[package]
name = "emu6502"
version = "0.1.0"
edition = "2021"
publish = false

[dependencies]
chrono = "0.4"
clap = { version = "4", features = ["derive"] }
crossterm = "0.28"
tracing = "0.1"
tracing-subscriber = "0.3"
pixels = "0.15"
winit = "0.30"

[dev-dependencies]
rand = "0.9"
