[package]
name = "spectroterm"
version = "0.1.0"
edition = "2021"
publish = false

[dependencies]
anyhow = "*"
cpal = "*"
crossterm = "*"
rustfft = "*"
textplots = "*"
