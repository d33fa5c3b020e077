[package]
name = "sjis_to_utf8"
version = "0.1.0"
edition = "2021"
publish = false

[dependencies]
encoding_rs = "0.8"
regex = "1"
lazy_static = "1"
pyo3 = "*"
