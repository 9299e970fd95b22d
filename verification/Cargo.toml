[package]
name = "bitalloc"
version = "0.1.0"
edition = "2021"
publish = false

[dependencies]
anyhow = "1"
ash = "0.37"
log = "0.4"
winit = "0.30"

[dev-dependencies]
simplelog = "0.12"
