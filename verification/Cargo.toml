[package]
name = "grt"
version = "0.1.0"
edition = "2021"
publish = false

[dependencies]
getopts = "0.2"
json = "0.12"
skim = { version = "0.10", default-features = false }
