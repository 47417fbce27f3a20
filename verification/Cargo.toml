[package]
name = "mu"
version = "0.1.0"
edition = "2021"
publish = false

[dependencies]
rand = "=0.8.8"
strsim = "=0.11.1"
dirs = "=5.0.1"
zune-core = "*"
zune-png = "*"
zune-jpeg = "*"
