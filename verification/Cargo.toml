[package]
name = "shared"
version = "0.1.0"
edition = "2021"
publish = false

[dependencies]
bxcan = "*"
embedded-can = "*"
futures = "*"
micromath = "*"
nb = "*"
pid-lite = "*"
