[package]
name = "cargo_generate"
version = "0.23.0"
edition = "2021"
rust-version = "1.85"
publish = false

[dependencies]
anyhow = "=1.0.104"
console = "=0.15.11"
env_logger = "=0.11.11"
fs-err = "=3.3.2"
kstring = "=2.0.2"
liquid-core = "=0.26.11"
log = "=0.4.35"
semver = "=1.0.28"
tempfile = "=3.27.0"
toml = "=0.8.23"
