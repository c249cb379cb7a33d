[package]
name = "particle_interactions_puzzle"
version = "0.1.0"
edition = "2021"
publish = false

[dependencies]
anyhow = "1"
argmin = "*"
argmin-math = "*"
num = "0.4"
pyo3 = "*"
rand = "*"
