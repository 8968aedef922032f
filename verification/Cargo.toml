[package]
name = "rsgit"
version = "0.1.0"
edition = "2021"
publish = false

[dependencies]
sha1 = "0.10"
flate2 = "1"
unicode-normalization = "0.1"
clap = "4"
