[package]
name = "quiz_lookup"
version = "0.1.0"
edition = "2021"
publish = false

[dependencies]
csv = "1"
colored = "2"
dirs = "5"
