[package]
name = "good_web_game"
version = "0.1.0"
edition = "2021"
publish = false

[dependencies]
miniquad = "0.3"
cgmath = "0.18"
mint = "0.5"
tar = "0.4"
