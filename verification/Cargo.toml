[package]
name = "rowquery"
version = "0.1.0"
edition = "2021"
publish = false

[dependencies]
shortcut = "=4.1.4"
