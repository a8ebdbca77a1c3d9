[package]
name = "gpukit"
version = "0.1.0"
edition = "2021"
publish = false

[dependencies]
anyhow = "1"
encase = "0.10"
nalgebra = "0.33"
parking_lot = "0.12"
pollster = "0.4"
wgpu = "23"
