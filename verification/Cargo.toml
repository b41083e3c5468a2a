[package]
name = "mir_assets"
version = "0.1.0"
edition = "2021"
publish = false

[dependencies]
bytes = "1"
crossbeam = "0.8"
tracing = "0.1"
ggez = { version = "0.9", default-features = false }
image = { version = "0.24", default-features = false, features = ["png"] }
