[package]
name = "spectral_analysis"
version = "0.1.0"
edition = "2021"

[dependencies]
rustfft = "*"
tract-onnx = "*"
