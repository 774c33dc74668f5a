[package]
name = "multichannel_audio"
version = "0.1.0"
edition = "2021"
publish = false

[dependencies]
anyhow = "1"
cpal = "0.15"
hound = "3.5"
lazy_static = "1"
