[package]
name = "mnemolock"
version = "0.1.0"
edition = "2021"
publish = false

[dependencies]
aes-gcm-siv = "0.11"
argon2 = "0.5"
bip39 = "2"
crossterm = "0.28"
