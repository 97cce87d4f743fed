[package]
name = "ferrite_session"
version = "0.1.0"
edition = "2021"
publish = false

[dependencies]
tokio = { version = "1", features = ["rt", "rt-multi-thread", "sync", "macros"] }
async-std = "1"
async-macros = "2"
