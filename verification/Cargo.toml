[package]
name = "kc_core"
version = "0.2.4"
edition = "2021"
publish = false

[dependencies]
bytes = "1"
bitflags = "2"
