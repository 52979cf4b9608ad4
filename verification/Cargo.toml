[package]
name = "promotion_picker"
version = "0.1.0"
edition = "2021"
publish = false

[dependencies]
time = "=0.1.45"
shakmaty = "=0.27.3"
gtk = "=0.19.0"
cairo-rs = "=0.22.9"
