[package]
name = "voxgen"
version = "0.1.0"
edition = "2021"
publish = false

[dependencies]
line_drawing = "*"
enterpolation = "*"
palette = "*"
