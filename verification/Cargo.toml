[package]
name = "nconf2nix"
version = "0.1.0"
edition = "2021"
publish = false

[dependencies]
anyhow = "1"
clap = { version = "4", features = ["derive", "cargo"] }
clap_complete = "4"
log = "0.4"
pretty_env_logger = "0.5"
