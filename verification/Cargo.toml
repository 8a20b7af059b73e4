[package]
name = "pod_com"
version = "0.1.0"
edition = "2021"
publish = false

[dependencies]
light-hasher = { version = "=7.0.0", features = ["keccak"] }
ark-bn254 = "=0.6.0"
ark-ff = "=0.6.0"
ark-std = "=0.6.0"

[dev-dependencies]
borsh = "=1.8.1"
