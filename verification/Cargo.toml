[package]
name = "mandelbrot"
version = "0.1.0"
edition = "2021"
publish = false

[dependencies]
gtk4 = "*"
image = "*"
indicatif = { version = "*", features = ["rayon"] }
itertools = "*"
lazy_static = "*"
num = "*"
rayon = "*"
