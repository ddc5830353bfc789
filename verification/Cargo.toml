[package]
name = "scalar_quantizer"
version = "0.1.0"
edition = "2021"
publish = false

[dependencies]
arrow-array = "*"
arrow-schema = "*"
half = "*"

[dev-dependencies]
