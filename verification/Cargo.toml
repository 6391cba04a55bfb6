[package]
name = "glyph_atlas"
version = "0.1.0"
edition = "2021"
publish = false

[dependencies]
bitflags = "2"
fnv = "1"
font-kit = "0.11"
gl = "0.14"
glutin = "0.30"
pathfinder_geometry = "0.5"
raw-window-handle = "0.5"
winit = "0.28"
