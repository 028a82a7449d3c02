[package]
name = "scamper"
version = "0.1.0"
edition = "2021"
publish = false

[dependencies]
log = "=0.4.34"
simplelog = "=0.12.2"
headless_chrome = "=0.9.0"
