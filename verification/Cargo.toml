[package]
name = "rustyimg"
version = "0.1.0"
edition = "2021"
publish = false

[dependencies]
chrono = "*"
clap = { version = "4", features = ["derive"] }
filetime = "*"
imgproc-rs = "*"
json = "*"
libheif-rs = "*"
