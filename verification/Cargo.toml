[package]
name = "sphinx"
version = "0.1.0"
edition = "2021"
publish = false

[dependencies]
aes-ctr = "=0.6.0"
blake2 = "=0.8.1"
chacha = "=0.3.0"
curve25519-dalek = { version = "=4.1.3", features = ["rand_core"] }
hmac = "0.12"
lioness = "=0.1.2"
rand_core = { version = "=0.6.4", features = ["getrandom"] }
sha2 = "0.10"
