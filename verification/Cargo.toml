[package]
name = "reims_vgpu"
version = "0.1.0"
edition = "2021"
publish = false

[dependencies]
metal2vulkan = "*"
metal = "*"
