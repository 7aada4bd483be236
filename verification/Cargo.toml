[package]
name = "defi_backend"
version = "0.1.0"
edition = "2021"
publish = false

[dependencies]
candid = "*"
ic-cdk = "*"
icrc-ledger-types = "*"
serde = "*"
once_cell = "*"
