[package]
name = "test262_harness"
version = "0.1.0"
edition = "2021"
publish = false

[dependencies]
serde = "*"
serde_yaml = "*"
walkdir = "*"
regex = "*"
