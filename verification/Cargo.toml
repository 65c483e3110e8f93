[package]
name = "warps"
version = "0.1.0"
edition = "2021"
publish = false

[dependencies]
anyhow = "*"
ffmpeg-sidecar = "*"
image = "*"
indicatif = "*"
rayon = "*"
