[package]
name = "piper"
version = "0.1.0"
edition = "2021"
publish = false

[dependencies]
num_cpus = "1"
once_cell = "1"
rayon = "1"
