[package]
name = "lattice_noise"
version = "0.1.0"
edition = "2021"
publish = false

[dependencies]
itertools = "0.10"
rand = "0.8"
rand_chacha = "0.3"
twox-hash = "1.6"
