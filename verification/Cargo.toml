[package]
name = "ok_bloomer"
version = "0.1.0"
edition = "2021"
publish = false

[dependencies]
png = "0.17"
glow = "0.11"
glutin = "0.28"
winit = "0.26"
