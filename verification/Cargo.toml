[package]
name = "armada"
version = "0.1.0"
edition = "2021"
publish = false

[dependencies]
cidr-utils = "0.5"
rand = "0.8"
clap = "3"
atty = "0.2"
