[package]
name = "borf"
version = "0.1.0"
edition = "2021"
publish = false

[dependencies]
clap = { version = "4", features = ["derive"] }
colored = "*"
dirs = "*"
miette = "*"
pest = "2"
pest_derive = "2"
rustyline = "*"
rustyline-derive = "*"
thiserror = "1"
