[package]
name = "zephyr_build"
version = "0.1.0"
edition = "2021"
publish = false

[dependencies]
regex = "1"
proc-macro2 = "1"
quote = "1"
log = "0.4"
memmap2 = "0.9"
fugit = "0.3"
