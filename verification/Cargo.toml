[package]
name = "token_core"
version = "0.1.0"
edition = "2021"
publish = false

[dependencies]
ethers-core = "*"
ic-cdk = "*"
ic-cdk-macros = "*"
candid = "*"

[dev-dependencies]
k256 = "*"
