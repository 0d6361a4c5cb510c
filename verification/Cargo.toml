[package]
name = "ray_tracer"
version = "0.1.0"
edition = "2021"

[dependencies]
png = "0.16"
rand = "0.8"
