[package]
name = "agon_control"
version = "0.1.0"
edition = "2021"
publish = false

[dependencies]
ez80 = "*"
libloading = "*"
sdl3 = "*"
