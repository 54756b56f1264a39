[package]
name = "ray_tracer"
version = "0.1.0"
edition = "2021"
publish = false

[dependencies]
itertools = "*"
progress = "*"
rand = "*"
