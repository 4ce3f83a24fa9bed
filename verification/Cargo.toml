[package]
name = "bolos"
version = "0.1.0"
edition = "2021"
publish = false

[dependencies]
k256 = "0.13"
p256 = "0.13"
ed25519-dalek = "2"
rand_chacha = "0.3"
sha2 = "0.10"
