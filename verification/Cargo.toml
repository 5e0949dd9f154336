[package]
name = "fishermann"
version = "0.1.0"
edition = "2021"
publish = false

[dependencies]
shakmaty = "*"
smallvec = "*"
rayon = "*"
regex = "*"
nalgebra = "*"
memmap = "*"
