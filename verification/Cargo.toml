[package]
name = "std_embedded_time"
version = "0.1.0"
edition = "2021"
publish = false

[dependencies]
embedded-time = "0.12"
