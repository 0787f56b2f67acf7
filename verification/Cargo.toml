[package]
name = "jtaskstats"
version = "0.1.0"
edition = "2021"
publish = false

[dependencies]
clap = "2"
linux-taskstats = "*"
regex = "1"
tempfile = "3"
