[package]
name = "feedsheet"
version = "0.1.0"
edition = "2021"
publish = false

[dependencies]
encoding = "0.2"
xml-rs = "*"
clap = "*"
toml = "*"
serde = "*"
serde_derive = "*"
xlsx = "*"
