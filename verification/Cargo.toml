[package]
name = "paryxa"
version = "0.1.0"
edition = "2021"
publish = false

[dependencies]
bcrypt = "*"
base64 = "0.13"
chrono = "*"
