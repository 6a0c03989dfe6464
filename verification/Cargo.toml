[package]
name = "delta"
version = "0.1.0"
edition = "2021"
publish = false

[dependencies]
ansi_term = "0.12"
syntect = { version = "4", default-features = false, features = ["default-fancy"] }
console = "0.15"
