[package]
name = "otto"
version = "0.1.0"
edition = "2021"
publish = false

[dependencies]
bitvec = "1"
enum-map = "2"
enum_ext = "*"
crossbeam = "0.8"
crossterm = "*"
alsa = "*"
