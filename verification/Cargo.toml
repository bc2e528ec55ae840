[package]
name = "saphedit"
version = "0.1.0"
edition = "2021"
publish = false

[dependencies]
crossfont = "0.8"
gl = "=0.14.0"
sdl2 = "=0.35.2"
