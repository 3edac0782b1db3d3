[package]
name = "ruzito"
version = "0.1.0"
edition = "2021"
publish = false

[dependencies]
crc = "1"
rust-crypto = "0.2"
flate2 = "1"
inflate = "0.4"
rand = "0.8"
chrono = "0.4"
clap = "2"
cli-table = "0.4"
rpassword = "7"
