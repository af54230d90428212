[package]
name = "rust_xlsxwriter"
version = "0.1.0"
edition = "2021"
publish = false

[dependencies]
regex = "1"
