[package]
name = "pargrep"
version = "0.1.0"
edition = "2021"
publish = false

[dependencies]
rayon = "*"
regex = "*"
memmap2 = "*"
argh = "*"
