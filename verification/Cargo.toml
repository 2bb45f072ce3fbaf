[package]
name = "uv-requirements"
version = "0.1.0"
edition = "2021"
publish = false

[dependencies]
anyhow = "1"
configparser = "3"
fs-err = "2"
futures = "0.3"
toml = "0.8"
