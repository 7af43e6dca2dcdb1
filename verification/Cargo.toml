[package]
name = "tomboy_toml_dom"
version = "0.1.0"
edition = "2021"
publish = false

[dependencies]
casual_logger = "*"
chrono = "0.4"
