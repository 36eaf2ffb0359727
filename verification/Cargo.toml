[package]
name = "r_tracer"
version = "0.1.0"
edition = "2021"
publish = false

[dependencies]
image = "=0.25.10"
minifb = "=0.29.0"
obj-rs = "*"
pk_stl = "=0.4.0"
rand = "=0.10.3"
rayon = "=1.12.0"
