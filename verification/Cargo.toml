[package]
name = "pop3"
version = "0.1.0"
edition = "2021"
publish = false

[dependencies]
rustls = "0.19"
webpki = "0.21"
