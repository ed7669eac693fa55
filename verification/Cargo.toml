[package]
name = "dualtable"
version = "0.1.0"
edition = "2021"
publish = false

[dependencies]
nu-protocol = "=0.115.1"
