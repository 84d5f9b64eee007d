[package]
name = "gemini_server"
version = "0.1.0"
edition = "2021"
publish = false

[dependencies]
mime_guess = "=2.0.5"
openssl = "=0.10.81"
percent-encoding = "=2.3.2"
rust-ini = "0.21"
threadpool = "=1.8.1"
