[package]
name = "mdbook-content-loader"
version = "0.1.0"
edition = "2021"
publish = false

[dependencies]
serde_json = "*"
chrono = "*"
semver = "*"
mdbook-preprocessor = "*"
log = "*"
env_logger = "*"
