[package]
name = "itip_engine"
version = "0.1.0"
edition = "2021"
publish = false

[dependencies]
ahash = "=0.8.12"
calcard = "=0.3.14"
