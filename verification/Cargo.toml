[package]
name = "sizzle"
version = "0.1.0"
edition = "2021"
publish = false

[dependencies]
rand = "0.7"
rand_distr = "0.2"
noise = { version = "0.6", default-features = false }
array-init = "*"
fps_counter = "*"
piston_window = "*"
