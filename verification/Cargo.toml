[package]
name = "repolint"
version = "0.1.0"
edition = "2021"
publish = false

[dependencies]
serde_json = { version = "=1.0.151", features = ["preserve_order", "float_roundtrip"] }
walkdir = "=2.5.0"
