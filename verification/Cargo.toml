[package]
name = "rsfetch"
version = "0.1.0"
edition = "2021"
publish = false

[dependencies]
clap = { version = "4", features = ["derive"] }
colored = "2"
dirs = "5"
machine-info = "*"
shellexpand = "3"
sysinfo = "0.29"
toml = "0.8"
users = "0.11"
whoami = "1"
