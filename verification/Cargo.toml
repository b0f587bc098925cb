[package]
name = "name_auction"
version = "0.1.0"
edition = "2021"
publish = false

[dependencies]
bs58 = "0.4.0"
near-sdk = "3.1.0"
borsh = "0.8"
