[package]
name = "node-manager"
version = "6.2.1"
edition = "2021"
publish = false

[dependencies]
bip39 = "=2.2.2"
