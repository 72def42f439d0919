[package]
name = "charms_engine"
version = "0.1.0"
edition = "2021"
publish = false

[dependencies]
charms-data = "*"
pyo3 = "*"
serde_json = "1"
