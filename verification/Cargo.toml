[package]
name = "starlight"
version = "0.1.0"
edition = "2021"
publish = false

[dependencies]
libc = "0.2"
ndarray = "0.16"
pnet = "0.35"
rppal = "0.19"
