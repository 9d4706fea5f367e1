[package]
name = "mandelbrot"
version = "0.1.0"
edition = "2021"
publish = false

[dependencies]
ndarray = "0.16"
num = "0.4"
numpy = "0.22"
pyo3 = { version = "0.22", features = ["extension-module", "abi3-py38"] }
