[package]
name = "teamech"
version = "0.1.0"
edition = "2021"
publish = false

[dependencies]
tiny-keccak = "=1.4.2"
rand = "0.8"
chrono = "0.4"
