[package]
name = "sekonic"
version = "0.1.0"
edition = "2021"
publish = false

[dependencies]
anyhow = "=1.0.104"
chrono = "=0.4.45"
pretty-hex = "=0.4.2"
