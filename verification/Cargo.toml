[package]
name = "wizard_registry"
version = "0.1.0"
edition = "2021"
publish = false

[dependencies]
soroban-sdk = "=26.1.1"
stellar-access = "=0.7.2"
stellar-macros = "=0.7.2"
stellar-tokens = "=0.7.2"
