[package]
name = "components"
version = "0.1.0"
edition = "2021"
publish = false

[dev-dependencies]
wide = "=1.7.1"
