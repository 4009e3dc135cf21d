[package]
name = "gnome"
version = "0.1.0"
edition = "2021"
publish = false

[dependencies]
rsa = { version = "=0.9.10", features = ["sha2"] }
aes-gcm = "=0.10.3"
rand = "=0.8.8"
async-std = "1"
smol = "2"
futures = "0.3"
bytes = "1"
