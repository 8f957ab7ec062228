[package]
name = "nona"
version = "0.1.0"
edition = "2021"
publish = false

[dependencies]
image = "=0.23.14"
miniquad = "=0.3.16"
rusttype = { version = "=0.9.3", features = ["gpu_cache"] }
slab = "=0.4.12"
glam = "=0.20.5"
