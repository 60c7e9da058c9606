[package]
name = "oryx"
version = "0.1.0"
edition = "2021"
publish = false

[dependencies]
url = "2"
anyhow = "1"
rodio = "*"
souvlaki = "0.8"
rustfft = "6"
serde = { version = "1", features = ["derive"] }
signal-hook = "0.3"
