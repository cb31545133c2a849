[package]
name = "storm"
version = "0.1.0"
edition = "2021"
publish = false

[dependencies]
cgmath = "=0.18.0"
crevice = { version = "=0.20.1", features = ["cgmath"] }
fontdue = "=0.9.5"
gl = "=0.14.0"
glutin = "=0.21.2"
image = { version = "=0.25.10", default-features = false, features = ["png"] }
log = "=0.4.34"
