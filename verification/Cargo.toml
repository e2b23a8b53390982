[package]
name = "changelog_linker"
version = "0.1.0"
edition = "2021"
publish = false

[dependencies]
clap = "*"
color-eyre = "*"
env_logger = "*"
eyre = "*"
log = "*"
reqwest = { version = "*", default-features = false, features = ["blocking"] }
