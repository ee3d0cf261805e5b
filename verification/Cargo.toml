[package]
name = "feedboard"
version = "0.1.0"
edition = "2021"
publish = false

[dependencies]
feed-rs = "*"
reqwest = { version = "*", default-features = false, features = ["blocking", "rustls-tls"] }
crossterm = "0.25"
tui = "0.19"
open = "*"
