[package]
name = "mandelbulb"
version = "0.1.0"
edition = "2021"
publish = false

[dependencies]
num = "=0.2.1"
png = "0.14"
rayon = "=1.12.0"
