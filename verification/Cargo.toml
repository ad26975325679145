[package]
name = "mdbook-rust"
version = "0.1.0"
edition = "2021"
publish = false

[dependencies]
anyhow = "=1.0.104"
indoc = "=2.0.8"
itertools = "=0.12.1"
mdbook = { version = "=0.4.52", default-features = false }
ra_ap_syntax = ">=0.0.120, <0.0.160"
semver = "=1.0.28"
serde_json = "=1.0.154"
thiserror = "=1.0.69"
