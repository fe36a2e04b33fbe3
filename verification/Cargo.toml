[package]
name = "cfr_historian"
version = "0.1.0"
edition = "2021"
publish = false

[dependencies]
little-sorry = "*"
uuid = "*"
