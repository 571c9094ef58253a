[package]
name = "cbor_io"
version = "0.1.0"
edition = "2021"
publish = false

[dependencies]
sealingslice = "*"
serde = "1"
