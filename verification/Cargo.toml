[package]
name = "loserchain"
version = "0.1.0"
edition = "2021"
publish = false

[dependencies]
evm = "=0.27.0"
frame-system = "=3.0.0"
pallet-evm = "=5.0.0"
pallet-timestamp = "=3.0.0"
sp-core = "=3.0.0"
sp-runtime = "=3.0.0"
sp-std = "=3.0.0"
substrate-bip39 = "=0.4.2"
syn = "=1.0.58"
