[package]
name = "coconut"
version = "0.1.0"
edition = "2021"
publish = false

[dependencies]
bls12_381 = "0.1"
rand = "0.7"
sha2 = "0.8"
