[package]
name = "yolo_rs"
version = "0.1.0"
edition = "2021"
publish = false

[dependencies]
itertools = "0.12"
ndarray = "0.15"
imageproc = "0.23"
image = { version = "0.24", default-features = false, features = ["png", "jpeg"] }
rusttype = "0.9"
thiserror = "1"
log = "0.4"
simplelog = "0.12"
wasi-nn = "0.6"
wasmedge-sdk = "0.13"
ffmpeg-next = "6"
