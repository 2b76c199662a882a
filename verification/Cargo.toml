[package]
name = "libpnet_pyo3"
version = "0.1.0"
edition = "2021"
publish = false

[dependencies]
pnet = "=0.35.0"
rand = "=0.8.8"
pyo3 = "=0.22.6"
