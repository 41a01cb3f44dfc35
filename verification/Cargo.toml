[package]
name = "viemo"
version = "0.1.0"
edition = "2021"
publish = false

[dependencies]
atomic-counter = "1"
futures = "0.3"
lazy_static = "1"
seahash = "4"
