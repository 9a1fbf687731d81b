[package]
name = "fde"
version = "0.1.0"
edition = "2021"
publish = false

[dependencies]
ark-bls12-381 = "0.4"
ark-bn254 = "0.4"
ark-crypto-primitives = { version = "0.4", features = ["crh"] }
ark-ec = "0.4"
ark-ff = "0.4"
ark-std = "0.4"
rand = "0.8"
rayon = "1"
