[package]
name = "zyxt"
version = "0.1.0"
edition = "2021"
publish = false

[dependencies]
num = "*"
ansi_term = "*"
