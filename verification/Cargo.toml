[package]
name = "nautilus_model"
version = "0.1.0"
edition = "2021"
publish = false

[dependencies]
pyo3 = "*"
serde = { version = "*", features = ["derive"] }
serde_json = "*"
thiserror = "*"
