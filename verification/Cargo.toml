[package]
name = "psez"
version = "0.1.0"
edition = "2021"
publish = false

[dependencies]
arboard = { version = "3", default-features = false }
chardetng = "0.1"
crossterm = "0.28"
encoding_rs = "0.8"
tempfile = "3"
unicode-width = "0.2"
