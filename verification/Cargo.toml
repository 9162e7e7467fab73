[package]
name = "domain_voucher"
version = "0.1.0"
edition = "2021"
publish = false

[dependencies]
starknet-crypto = "=0.6.2"
starknet-ff = "=0.3.7"
