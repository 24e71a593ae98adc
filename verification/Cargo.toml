[package]
name = "wesldoc"
version = "0.1.0"
edition = "2021"
publish = false

[dependencies]
indexmap = "=2.14.2"
semver = "=1.0.28"
pulldown-cmark = "=0.13.5"
clap = { version = "=4.6.7", features = ["derive"] }
serde = { version = "=1.0.229", features = ["derive"] }
serde_json = "=1.0.154"
toml = "=0.9.12"
cargo_metadata = "=0.23.1"
log = "=0.4.34"
env_logger = "=0.11.11"
askama = "=0.16.1"
ammonia = "=4.2.4"
include_dir = "=0.7.4"
