[package]
name = "rustmd5"
version = "0.1.0"
edition = "2021"

[dependencies]
structopt = "0.3"
