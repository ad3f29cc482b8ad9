[package]
name = "oxide"
version = "0.1.0"
edition = "2021"
publish = false

[dependencies]
config = "0.13"
crypto-hash = "0.3"
directories = "5"
indicatif = "0.17"
reqwest = { version = "0.11", features = ["blocking"] }
threadpool = "1.8"
tungstenite = "0.20"
