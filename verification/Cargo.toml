[package]
name = "dawrs"
version = "0.1.0"
edition = "2021"
publish = false

[dependencies]
rand = "*"
rustfft = "*"
crossbeam-channel = "*"
anyhow = "*"
plotters = "*"
