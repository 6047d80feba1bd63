[package]
name = "pons_dds"
version = "0.1.0"
edition = "2021"
publish = false

[dependencies]
rayon = "=1.12.0"

[dev-dependencies]
contract-bridge = "=0.1.4"
