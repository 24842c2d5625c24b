[package]
name = "structura"
version = "0.1.0"
edition = "2021"
publish = false

[dependencies]
rusttype = "0.9"
softbuffer = "0.4"
winit = "0.30"
