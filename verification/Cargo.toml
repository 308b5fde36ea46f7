[package]
name = "web_gpu_engine"
version = "0.1.0"
edition = "2021"
publish = false

[dependencies]
cgmath = "=0.18.0"
slotmap = "=1.1.1"
num-traits = "=0.2.19"
image = { version = "0.24", default-features = false, features = ["png"] }
