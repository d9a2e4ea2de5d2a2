[package]
name = "clockit"
version = "0.1.0"
edition = "2021"
publish = false

[dependencies]
rand = "0.8"
chrono = "0.4"
qrcode = "0.14"
urlencoding = "2"
