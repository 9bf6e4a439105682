[package]
name = "gf_metadata"
version = "0.1.0"
edition = "2021"
publish = false

[dependencies]
google-fonts-languages = "*"
protobuf = "*"
regex = "*"
walkdir = "*"
home = "*"
