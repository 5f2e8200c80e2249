[package]
name = "fast_rm"
version = "0.1.0"
edition = "2021"
publish = false

[dependencies]
clap = { version = "4", features = ["derive"] }
colored = "2"
crossbeam-channel = "0.5"
crossterm = "0.27"
indicatif = "0.17"
num_cpus = "1"
rayon = "1"
