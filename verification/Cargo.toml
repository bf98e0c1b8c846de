[package]
name = "srcinfo_parser"
version = "0.1.0"
edition = "2021"
publish = false

[dependencies]
indexmap = "2"
parking_lot = "0.12"
strum = { version = "*", features = ["derive", "phf"] }
derive_more = { version = "*", features = ["display", "error"] }
pipe-trait = "*"
