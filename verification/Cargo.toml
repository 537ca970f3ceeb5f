[package]
name = "fractals"
version = "0.1.0"
edition = "2021"
publish = false

[dependencies]
colorbrewer = "=0.1.0"
rayon = "=1.12.0"
pixel-canvas = "=0.2.3"
structopt = "=0.3.26"
winit = "=0.26.1"
