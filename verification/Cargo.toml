[package]
name = "matrix"
version = "0.1.0"
edition = "2021"
publish = false

[dependencies]
num-traits = "0.2"
num_cpus = "1"
rand = "0.8"
rand_chacha = "0.3"
rand_distr = "0.4"
rayon = "1"
