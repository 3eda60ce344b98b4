[package]
name = "korneplod"
version = "0.1.0"
edition = "2021"
publish = false

[dependencies]
ml-kem = "0.2"
chacha20 = "0.9"
rand = "0.8"
async-net = "2"
async-std = "1"
futures-lite = "2"
