[package]
name = "tape_engine"
version = "0.1.0"
edition = "2021"
publish = false

[dependencies]
vst = "*"

[dev-dependencies]
rand_xoshiro = "*"
