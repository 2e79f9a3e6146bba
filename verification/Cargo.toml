[package]
name = "id3org"
version = "0.1.0"
edition = "2021"
publish = false

[dependencies]
regex = "1"
id3 = "1"
walkdir = "2"
colored = "2"
docopt = "1"
