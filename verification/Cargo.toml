[package]
name = "websocketz"
version = "0.1.0"
edition = "2021"
publish = false

[dependencies]
base64 = "*"
sha1 = "*"
rand = "*"
rand_core = "*"
embedded-io-async = "*"
