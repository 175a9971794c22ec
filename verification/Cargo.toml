[package]
name = "barcode_program"
version = "0.1.0"
edition = "2021"
publish = false

[dependencies]
borsh = "=0.10.4"
solana-program = "=1.18.26"
