[package]
name = "log2vcd"
version = "0.1.0"
edition = "2021"
publish = false

[dependencies]
vcd = "*"
structopt = "*"
