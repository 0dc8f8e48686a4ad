[package]
name = "fft_convolution"
version = "0.1.0"
edition = "2021"
publish = false

[dependencies]
num-complex = "0.4"
rustfft = "6"
