[package]
name = "file_server"
version = "0.1.0"
edition = "2021"
publish = false

[dependencies]
mime = "0.3"
