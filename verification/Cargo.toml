[package]
name = "terraform_rules"
version = "0.1.0"
edition = "2021"
publish = false

[dependencies]
hcl-rs = "*"
regex = "*"
serde_json = "*"
anyhow = "*"
forseti_sdk = "*"
