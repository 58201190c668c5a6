[package]
name = "method_registry"
version = "0.1.0"
edition = "2021"
publish = false

[dependencies]
syn = { version = "=2.0.119", features = ["full"] }
quote = "1"
