[package]
name = "transaction_notifier"
version = "0.1.0"
edition = "2021"
publish = false

[dependencies]
candid = "0.7"
futures = "0.3"
ic-cdk = "0.5"
ic-cdk-macros = "0.5"
ic-ledger-types = "0.1"
itertools = "0.10"
serde = { version = "1", features = ["derive"] }
serde_bytes = "0.11"
serde_json = "1"
tracing = "0.1"
