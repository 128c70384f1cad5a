[package]
name = "acs"
version = "1.2.2"
edition = "2021"
publish = false

[dependencies]
libc = "0.2"
serialport = { version = "4", default-features = false }
