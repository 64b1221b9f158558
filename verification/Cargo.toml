[package]
name = "qr_gen"
version = "0.1.0"
edition = "2021"
publish = false

[dependencies]
bitstream-io = "2"
itertools = "0.13"
image = { version = "0.24", default-features = false }
