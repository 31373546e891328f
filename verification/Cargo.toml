[package]
name = "lokc"
version = "0.1.0"
edition = "2021"
publish = false

[dependencies]
unique_id = "=0.1.7"
