[package]
name = "master_edition"
version = "0.1.0"
edition = "2021"
publish = false

[dependencies]
mpl-token-metadata = "3.2"
solana-program = ">=1.14, <2.0"
anchor-lang = "=0.26.0"
anchor-spl = "=0.26.0"
