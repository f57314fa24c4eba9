[package]
name = "rascaline"
version = "0.1.0"
edition = "2021"
publish = false

[dependencies]
log = "0.4"
ndarray = "0.15"
once_cell = "1"
time-graph = "*"
