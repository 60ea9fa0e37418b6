[package]
name = "ip6tables"
version = "0.1.0"
edition = "2021"
publish = false

[dependencies]
errno = "0.3"
lazy_static = "1"
