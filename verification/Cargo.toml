[package]
name = "tor_hsservice"
version = "0.1.0"
edition = "2021"
publish = false

[dependencies]
rand = "0.8"
tor-hscrypto = { version = "*", features = ["ope"] }
base64ct = "*"
fslock = "*"
fs-mistrust = "*"
ssh-key = "*"
