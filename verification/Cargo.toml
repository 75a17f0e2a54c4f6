[package]
name = "batpu_host"
version = "0.1.0"
edition = "2021"
publish = false

[dependencies]
batpu-assembly = "=0.3.1"
byteorder = "=1.5.0"
godot = "=0.4.5"
