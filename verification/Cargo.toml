[package]
name = "envpath"
version = "0.1.0"
edition = "2021"
publish = false

[dependencies]
directories = "5"
dirs = "5"
rand = "0.8"
serde = "1"
