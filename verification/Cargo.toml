[package]
name = "ed25519_basic_sig"
version = "0.1.0"
edition = "2021"
publish = false

[dependencies]
ed25519-consensus = "2"
curve25519-dalek = "4"
rand = "0.8"
rand_chacha = "0.3"
zeroize = "1"
prost-build = "0.13"

[dev-dependencies]
hex = "0.4"
simple_asn1 = "0.6"
