[package]
name = "ghost_backend"
version = "0.1.0"
edition = "2021"
publish = false

[dependencies]
hex = "*"
candid = "*"
ic-cdk = "*"
ic-cdk-macros = "*"
