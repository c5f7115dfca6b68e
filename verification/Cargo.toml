[package]
name = "fcmp_pp"
version = "0.1.0"
edition = "2021"
publish = false

[dependencies]
ciphersuite = { version = "=0.4.2", features = ["ed25519"] }
dalek-ff-group = "=0.4.6"
rand_core = { version = "=0.6.4", features = ["getrandom"] }
