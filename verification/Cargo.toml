[package]
name = "pattypan"
version = "0.1.0"
edition = "2021"
publish = false

[dependencies]
minifb = "=0.29.0"
nix = { version = "=0.31.3", features = ["term", "process", "fs"] }
libc = "=0.2.191"
swash = "=0.2.10"
anyhow = "=1.0.104"
