[package]
name = "va_backend"
version = "0.1.0"
edition = "2021"
publish = false

[dependencies]
anyhow = "1"
byteorder = "1"
libva = "*"
log = "0.4"
