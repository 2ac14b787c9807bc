[package]
name = "pallet-kitties"
version = "0.1.0"
edition = "2021"
publish = false

[dependencies]
frame-support = "*"
frame-system = "*"
sp-runtime = "*"
parity-scale-codec = "*"
scale-info = "*"
log = "*"
