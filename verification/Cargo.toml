[package]
name = "gem"
version = "0.1.0"
edition = "2021"
publish = false

[dependencies]
sha2 = "0.8"
gfx-hal = "0.1"
gfx-backend-vulkan = "0.1"
winit = "0.18"
image = "0.21"
obj = "0.9"
cgmath = "0.17"
time = "0.1"
glsl-to-spirv = "0.1"
