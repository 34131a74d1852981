[package]
name = "bech_mock"
version = "0.1.0"
edition = "2021"
publish = false

[dependencies]
bech32 = "0.9"
cosmwasm-std = "1.5"
cw-multi-test = "1"
