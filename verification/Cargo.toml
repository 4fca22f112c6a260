[package]
name = "dropset"
version = "0.1.0"
edition = "2021"
publish = false

[dependencies]
rust_decimal = "=1.43.0"
pinocchio = { version = "=0.12.0", features = ["cpi", "account-resize"] }
anyhow = "=1.0.104"
# `pinocchio::Address` is this crate's `Address`; its `decode` feature gives
# `Address::from_str_const`, which app/ uses to write the program id.
solana-address = { version = "=2.9.0", features = ["decode"] }
pinocchio-token = "=0.8.0"
pinocchio-token-2022 = "=0.5.0"
pinocchio-system = "=0.7.0"
pinocchio-associated-token-account = "=0.5.0"
