[package]
name = "auto_ref"
version = "0.1.0"
edition = "2021"

[dependencies]
proc-macro2 = "*"
quote = "*"
syn = { version = "*", features = ["full"] }
