[package]
name = "spectral_io"
version = "0.3.0"
edition = "2021"
publish = false

[dependencies]
serde = { version = "1", features = ["derive"] }
serde_json = "1"
thiserror = "1"
pyo3 = "0.22"
numpy = "0.22"
