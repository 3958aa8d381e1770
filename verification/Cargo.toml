[package]
name = "nit_stream"
version = "0.1.0"
edition = "2021"
publish = false

[dependencies]
ini = { version = "=2.0.0", features = ["indexmap"] }
mpegts = "=0.1.2"
udp = "=10.3.0"
