[package]
name = "gelix"
version = "0.1.0"
edition = "2021"
publish = false

[dependencies]
indexmap = "=1.9.3"
rowan = "=0.12.6"
smol_str = "=0.1.24"
