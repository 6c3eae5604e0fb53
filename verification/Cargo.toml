[package]
name = "slonk"
version = "0.1.0"
edition = "2021"
publish = false

[dependencies]
gpio-cdev = "*"
nix = { version = "*", features = ["socket"] }
serde = { version = "1", features = ["derive"] }
serde_json = "1"
