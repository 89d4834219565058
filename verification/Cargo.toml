[package]
name = "ouro_contracts"
version = "0.1.0"
edition = "2021"
publish = false

[dependencies]
stylus-sdk = "0.10.0"
alloy-primitives = "1.0"
alloy-sol-types = "1.0"
