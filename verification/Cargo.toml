[package]
name = "fbconsole"
version = "0.1.0"
edition = "2021"
publish = false

[dependencies]
rlibc = "1.0"
wee_alloc = "0.4"
