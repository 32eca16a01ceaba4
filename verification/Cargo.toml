[package]
name = "autocrop"
version = "0.1.0"
edition = "2021"
publish = false

[dependencies]
clap = { version = "4", features = ["derive"] }
glob = "0.3"
image = { version = "0.25", default-features = false, features = ["png", "jpeg"] }
num_cpus = "1"
rayon = "1"
