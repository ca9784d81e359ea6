[package]
name = "readinglist"
version = "0.1.0"
edition = "2021"
publish = false

[dependencies]
comfy-table = "*"
dialoguer = "*"
lazy_static = "1"
rusqlite = "*"
structopt = "0.3"
