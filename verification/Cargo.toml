[package]
name = "malrs"
version = "0.1.0"
edition = "2021"

[dependencies]
rustc_apfloat = "*"
rustyline = "*"
