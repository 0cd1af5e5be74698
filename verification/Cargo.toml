[package]
name = "splotrs"
version = "0.1.0"
edition = "2021"
publish = false

[dependencies]
ganesh = "=0.29.1"
thiserror = "=2.0.21"
pyo3 = { version = "=0.30.1", features = ["experimental-inspect"] }
numpy = "=0.30.0"
