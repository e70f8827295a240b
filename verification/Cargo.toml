[package]
name = "grazel"
version = "0.1.0"
edition = "2021"
publish = false

[dependencies]
libc = "0.2"
tiny_http = "0.12"
