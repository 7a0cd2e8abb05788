[package]
name = "rufaco"
version = "0.1.0"
edition = "2021"
publish = false

[dependencies]
clap = { version = "=4.6.7", features = ["derive"] }
libmedium = "=0.13.4"
log = "=0.4.34"
serde = { version = "=1.0.229", features = ["derive"] }
serde_yaml = "=0.9.34"
signal-hook = "=0.4.5"
simplelog = "=0.12.2"
