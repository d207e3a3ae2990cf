[package]
name = "eddsa_poseidon"
version = "0.1.0"
edition = "2021"
publish = false

[dependencies]
ark-crypto-primitives = { version = "0.4", default-features = false, features = ["sponge"] }
ark-ec = "0.4"
ark-ed-on-bn254 = "0.4"
ark-ff = "0.4"
ark-serialize = "0.4"
ark-std = "0.4"
digest = "0.10"
rand_core = { version = "0.6", features = ["getrandom"] }
sha2 = "0.10"
