[package]
name = "inet"
version = "0.1.0"
edition = "2021"
publish = false

[dependencies]
tracing = "0.1"
tracing-subscriber = "0.3"
