[package]
name = "assetman"
version = "0.1.0"
edition = "2021"
publish = false

[dependencies]
renege = "0.3.1"
notify = "8.2.0"
log = "0.4"
thiserror = "2"
bytemuck = "1"
image = { version = "0.25", default-features = false, features = ["png"] }
wgpu = "26"
pollster = "0.4"
