[package]
name = "rust_tracer"
version = "0.1.0"
edition = "2021"
publish = false

[dependencies]
font8x8 = "*"
minifb = "*"
rand = "0.9"
rayon = "*"
rfd = "*"
