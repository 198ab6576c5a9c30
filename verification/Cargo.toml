[package]
name = "state_space_tween"
version = "0.1.0"
edition = "2021"
publish = false

[dependencies]
chrono = "0.4"
flo_curves = "*"
num-traits = "*"
