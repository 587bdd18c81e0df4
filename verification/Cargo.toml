[package]
name = "isla_client"
version = "0.1.0"
edition = "2021"
publish = false

[dependencies]
crossbeam = "=0.8.5"
isla-lib = "=0.2.0"
sha2 = "=0.8.2"
toml = "=0.5.11"
