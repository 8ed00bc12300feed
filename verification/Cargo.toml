[package]
name = "reporting"
version = "0.1.0"
edition = "2021"
publish = false

[dependencies]
anstyle = "1"
unicode-width = "0.1"
