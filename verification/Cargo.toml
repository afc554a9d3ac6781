[package]
name = "walking_pattern"
version = "0.1.0"
edition = "2021"
publish = false

[dependencies]
nalgebra = "=0.35.0"
gnuplot = "=0.0.46"
mujoco-rs = { version = "=5.0.0", features = ["viewer"] }
