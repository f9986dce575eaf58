[package]
name = "post_process"
version = "0.1.0"
edition = "2021"
publish = false

[dev-dependencies]
encase = "0.8"
