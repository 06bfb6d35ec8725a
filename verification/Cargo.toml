[package]
name = "lafs"
version = "0.1.0"
edition = "2021"
publish = false

[dependencies]
rsa = "0.9"
sha2 = "0.10"
pyo3 = "0.22"

[dev-dependencies]
rand = "0.8"
