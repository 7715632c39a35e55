[package]
name = "rust_ed"
version = "0.1.0"
edition = "2021"

[dependencies]
crossterm = "0.17"
clipboard = "0.5"
