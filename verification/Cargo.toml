[package]
name = "expression_engine"
version = "0.1.0"
edition = "2021"
publish = false

[dependencies]
once_cell = "1"
rust_decimal = { version = "1", default-features = false, features = ["std"] }
