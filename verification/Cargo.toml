[package]
name = "textreader"
version = "0.1.0"
edition = "2021"
publish = false

[dependencies]
encoding_rs = "0.8"
http = "1"
serde_json = "1"
