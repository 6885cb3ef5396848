[package]
name = "anonchat"
version = "0.1.0"
edition = "2021"
publish = false

[dependencies]
html-escape = "*"
urlencoding = "*"
tokio = { version = "*", features = ["sync", "time", "rt-multi-thread", "macros"] }
