[package]
name = "sylph"
version = "0.1.0"
edition = "2021"
publish = false

[dependencies]
regex = "*"
num_cpus = "*"
hyper = "0.10"
