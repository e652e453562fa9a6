[package]
name = "ansible_wrapper"
version = "0.1.0"
edition = "2021"
publish = false

[dependencies]
anyhow = "1"
rust-ini = "*"
semver = "1"
serde = { version = "1", features = ["derive"] }
serde_yaml_ng = "*"
toml = "*"
which = "*"
