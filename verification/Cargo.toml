[package]
name = "spectra"
version = "0.1.0"
edition = "2021"
publish = false

[dependencies]
warmy = "*"
cgmath = "*"
luminance = "*"
glsl = "*"
