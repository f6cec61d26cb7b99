[package]
name = "financial"
version = "1.1.3"
edition = "2021"

[dependencies]
chrono = "0.4"
