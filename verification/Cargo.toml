[package]
name = "killa"
version = "0.1.0"
edition = "2021"
publish = false

[dependencies]
num_cpus = "=1.17.0"
rustix = { version = "=1.1.5", features = ["process", "param"] }
procfs = "=0.18.0"
