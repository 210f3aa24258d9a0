[package]
name = "bitmap_rs"
version = "0.1.0"
edition = "2021"
publish = false

[dependencies]
nom = "7"
custom_debug_derive = "*"
