[package]
name = "bcp47"
version = "0.1.0"
edition = "2021"
publish = false

[dependencies]
extism-pdk = "*"
lazy_static = "*"
nom = "*"
serde = "*"
serde_derive = "*"
