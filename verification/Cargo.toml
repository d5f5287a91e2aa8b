[package]
name = "multipart"
version = "0.1.0"
edition = "2021"
publish = false

[dependencies]
hyper = "0.10"
mime = "0.2"
mime_guess = "2"
rand = "0.8"
