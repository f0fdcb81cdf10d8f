[package]
name = "royal_ur"
version = "0.1.0"
edition = "2021"
publish = false

[dependencies]
rand = "0.9"
crossterm = { version = "0.28", default-features = false }
