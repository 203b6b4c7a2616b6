[package]
name = "lamport_signature_plus"
version = "0.1.0"
edition = "2021"
publish = false

[dependencies]
blake2 = "0.10"
hex = "0.4"
rand = "0.8"
serde = "1"
sha2 = "0.10"
sha3 = "0.10"
subtle = "2"
thiserror = "1"
vsss-rs = "4"
whirlpool = "0.10"
zeroize = "1"

[dev-dependencies]
rand_chacha = "0.3"
