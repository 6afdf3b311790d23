[package]
name = "rusty_ray_tracer"
version = "0.1.0"
edition = "2021"

[dependencies]
derive_more = "0.99"
float-cmp = "0.9"
itertools = "0.10"
num = "0.4"
