[package]
name = "artefact_runtime"
version = "0.1.0"
edition = "2021"
publish = false

[dependencies]
anyhow = "=1.0.104"
ort = "=2.0.0-rc.13"
serde = { version = "=1.0.229", features = ["derive"] }
sys-info = "=0.9.1"
tokenizers = "=0.23.2"
