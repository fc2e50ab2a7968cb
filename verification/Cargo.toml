[package]
name = "crossword"
version = "0.1.0"
edition = "2021"
publish = false

[dependencies]
bs58 = "0.4.0"
near-sdk = "3.1.0"
