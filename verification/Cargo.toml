[package]
name = "tf2_sku"
version = "0.1.0"
edition = "2021"
publish = false

[dependencies]
tf2-enum = "*"
serde = "1"
