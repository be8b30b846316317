[package]
name = "option_ledger"
version = "0.1.0"
edition = "2021"
publish = false

[dependencies]
rand = "=0.4.6"
rusqlite = "0.32"
clap = "=2.34.0"
error-chain = "=0.12.4"
env_logger = "=0.4.3"
log = "=0.3.9"
