[package]
name = "fast_mic"
version = "0.1.0"
edition = "2021"
publish = false

[dependencies]
ringbuf = "0.2"
anyhow = "1"
cpal = "0.14"
