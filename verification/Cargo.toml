[package]
name = "block_ledger"
version = "0.1.0"
edition = "2021"
publish = false

[dependencies]
indexmap = "=2.14.2"
papyrus_storage = "=0.3.0"
parity-scale-codec-derive = "=3.6.5"
pyo3 = "=0.30.1"
starknet_api = "=0.10.0"
