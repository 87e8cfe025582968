[package]
name = "lolcate"
version = "0.1.0"
edition = "2021"
publish = false

[dependencies]
clap = "2"
crossbeam-channel = "0.5"
dirs = "*"
expanduser = "1"
ignore = "0.4"
lz4 = "1"
regex = "1"
serde = { version = "1", features = ["derive"] }
termcolor = "1"
toml = "0.5"
walkdir = "2"
