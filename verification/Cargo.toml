[package]
name = "governance_relay"
version = "0.1.0"
edition = "2021"
publish = false

[dependencies]
hex = "0.4"
solana-program = "2"

[dev-dependencies]
borsh = "1"
