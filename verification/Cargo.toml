[package]
name = "pac_mod"
version = "0.1.0"
edition = "2021"
publish = false

[dependencies]
boa_engine = "*"
wee_alloc = "*"
