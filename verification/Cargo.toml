[package]
name = "coldpad"
version = "0.3.0"
edition = "2021"
publish = false

[dependencies]
aes-gcm = "0.10"
argon2 = "0.5"
base64 = "0.22"
clap = { version = "4", features = ["derive"] }
console = "0.15"
dialoguer = "0.11"
hex = "0.4"
rand = "0.8"
rpassword = "7"
sha2 = "0.10"
subtle = "2"
