[package]
name = "turi"
version = "0.1.0"
edition = "2021"
publish = false

[dependencies]
ansi_term = "0.12"
css-color-parser = "0.1"
simplecss = "0.2"
unicode-width = "0.1"
ahash = "0.4"
bumpalo = { version = "3", features = ["collections"] }
nohash-hasher = "0.2"
crossterm = "0.17"
libc = "0.2"
log = "0.4"
