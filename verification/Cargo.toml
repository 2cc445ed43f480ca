[package]
name = "toml_manifest"
version = "0.1.0"
edition = "2021"
publish = false

[dependencies]
toml = "0.8"
semver = "1"
url = "2"
