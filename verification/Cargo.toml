[package]
name = "dory"
version = "0.1.0"
edition = "2021"
publish = false

[dependencies]
ark-bn254 = "=0.5.0"
ark-ff = "=0.5.0"
ark-serialize = "=0.5.0"
blake2 = "=0.10.6"
digest = "=0.10.7"
serde = { version = "=1.0.229", features = ["derive"] }
bincode = "=1.3.3"
rand = "=0.9.5"

[dev-dependencies]
rand = "=0.9.5"
