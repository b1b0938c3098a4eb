[package]
name = "btc_peer"
version = "0.1.0"
edition = "2021"
publish = false

[dependencies]
sha2 = "*"
rand = "*"
chrono = "*"
crossterm = "*"
ratatui = "*"
