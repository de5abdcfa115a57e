[package]
name = "check_external_types"
version = "0.1.0"
edition = "2021"
publish = false

[dependencies]
anyhow = "1"
rustdoc-types = "0.12"
