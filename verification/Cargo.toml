[package]
name = "beacon"
version = "0.1.0"
edition = "2021"
publish = false

[dependencies]
rand = "0.8"
hex = "0.4"
argon2 = { version = "0.5", features = ["std"] }
rsa = "0.9"
ssh-key = { version = "0.6", features = ["rsa"] }
