[package]
name = "clevis_pin_tpm2"
version = "0.1.0"
edition = "2021"
publish = false

[dependencies]
anyhow = "1"
serde = { version = "1", features = ["derive"] }
serde_json = "1"
tpm2-policy = "*"
tss-esapi = "*"
