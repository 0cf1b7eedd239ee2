[package]
name = "ruspec"
version = "0.1.0"
edition = "2021"
publish = false

[dependencies]
Inflector = "*"
proc-macro2 = "*"
colored = "*"
