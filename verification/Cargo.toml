[package]
name = "yarer"
version = "0.1.0"
edition = "2021"
publish = false

[dependencies]
bigdecimal = "*"
clap = { version = "4", features = ["derive"] }
num-bigint = "0.4"
num-traits = "0.2"
rustyline = "9"
