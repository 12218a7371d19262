[package]
name = "java_locator"
version = "0.1.0"
edition = "2021"
publish = false

[dependencies]
glob = "0.3"
docopt = "1.1"
