[package]
name = "ethexec"
version = "0.1.0"
edition = "2021"
publish = false

[dependencies]
rlp = "=0.6.1"
tiny-keccak = { version = "=2.0.2", features = ["keccak"] }
triehash = "=0.8.4"
keccak-hasher = "=0.15.3"
crossbeam = "=0.8.5"
serde = { version = "=1.0.229", features = ["derive"] }
serde_json = "=1.0.154"
kvdb = "=0.13.0"
