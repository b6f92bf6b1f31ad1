[package]
name = "kpn_codegen"
version = "0.1.0"
edition = "2021"
publish = false

[dependencies]
syntex_syntax = "*"
rustc-serialize = "*"
dot = "*"
