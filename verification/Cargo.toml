[package]
name = "signer"
version = "0.1.0"
edition = "2021"
publish = false

[dependencies]
bitcoin = "=0.32.102"
secp256k1 = { version = "=0.29.1", features = ["global-context", "rand-std", "recovery"] }
wsts = { version = "=9.2.0", default-features = false }
p256k1 = { version = "=7.1.0", default-features = false }
hashbrown = "=0.14.5"
tokio = { version = "=1.54.1", features = ["sync", "rt", "macros", "time"] }
futures = "=0.3.34"
zeromq = "=0.4.1"
metrics = "=0.23.1"
metrics-exporter-prometheus = "=0.15.3"
time = "=0.3.55"
rand = "=0.8.8"
fake = "=2.10.0"
stacks-common = "=0.0.3"
