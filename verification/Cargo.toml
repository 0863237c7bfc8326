[package]
name = "rocket_include_tera"
version = "0.1.0"
edition = "2021"
publish = false

[dependencies]
tera = "1"
html-minifier = "*"

[dev-dependencies]
tempfile = "3"
