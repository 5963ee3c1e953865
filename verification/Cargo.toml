[package]
name = "set_cosmic_theme"
version = "0.1.0"
edition = "2021"
publish = false

[dependencies]
anyhow = "1"
ron = "0.8"
