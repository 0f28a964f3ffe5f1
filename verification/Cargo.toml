[package]
name = "m3u8_dl"
version = "0.1.0"
edition = "2021"
publish = false

[dependencies]
m3u8-rs = "=6.0.1"
mpeg2ts = "=0.1.1"
clap = "=2.34.0"
dialoguer = "=0.12.0"
indicatif = "=0.18.6"
lazy_static = "=1.5.1"
reqwest = { version = "=0.13.5", features = ["blocking"] }
