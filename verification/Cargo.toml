[package]
name = "aes256cbc"
version = "0.1.0"
edition = "2021"
publish = false

[dependencies]
rust-crypto = "0.2"
base64 = "0.13"
rand = "0.8"
serde = { version = "1", features = ["derive"] }
serde_yaml = "0.9"
shellexpand = "2"
clap = "2"
console = "0.15"
rpassword = "5"
