[package]
name = "dataclasses"
version = "0.1.0"
edition = "2021"
publish = false

[dependencies]
syn = { version = "2", features = ["full"] }
codegen = "*"
quote = "1"
proc-macro2 = "1"
