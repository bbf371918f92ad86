[package]
name = "crab"
version = "0.1.0"
edition = "2021"
publish = false

[dependencies]
arrayvec = "=0.7.8"
oorandom = "=11.1.5"
pgn-reader = "0.26"
