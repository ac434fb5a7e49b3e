[package]
name = "slimnn"
version = "0.1.0"
edition = "2021"
publish = false

[dependencies]
safetensors = "*"
rand = "*"
memmap2 = "*"
