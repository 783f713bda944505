[package]
name = "outdated"
version = "0.1.0"
edition = "2021"
publish = false

[dependencies]
semver = "=1.0.28"
serde_json = "=1.0.151"
serde = "=1.0.229"
anyhow = "=1.0.104"
rayon = "=1.12.0"
curl = "=0.4.50"
toml = "*"
