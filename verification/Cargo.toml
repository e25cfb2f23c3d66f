[package]
name = "dynapork"
version = "0.1.0"
edition = "2021"
publish = false

[dependencies]
dotenv = "0.15"
reqwest = { version = "0.11", default-features = false, features = ["blocking", "rustls-tls"] }
