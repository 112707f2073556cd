[package]
name = "epd_dither"
version = "0.1.0"
edition = "2021"
publish = false

[dependencies]
rand = "0.8"
image = "*"
anyhow = "*"
clap = { version = "4", features = ["derive"] }
