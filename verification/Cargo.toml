[package]
name = "c2cls"
version = "0.1.0"
edition = "2021"
publish = false

[dependencies]
lang-c = "0.15"
rand = "0.8"
regex = "1"
